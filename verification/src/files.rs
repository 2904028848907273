//! Which paths are images, and how the paths given on the command line
//! become the image list.

use vstd::prelude::*;
use vstd::string::*;
use vstd::utf8::encode_utf8;
use crate::text::{extension_of, extension_span, texts, to_chars};

verus! {

/// Whether `c` is the lowercase letter or digit `w`, or its uppercase form.
pub open spec fn matches_letter(c: char, w: char) -> bool {
    c == w || ('A' <= c <= 'Z' && c as u32 + 32 == w as u32)
}

/// Whether `text` is `word` up to the case of ASCII letters; `word` is in
/// lowercase.
pub open spec fn matches_word(text: Seq<char>, word: Seq<char>) -> bool {
    &&& text.len() == word.len()
    &&& forall|i: int| 0 <= i < text.len() ==> matches_letter(#[trigger] text[i], word[i])
}

/// Whether a path names an image: its extension is one of `png`, `jpg`,
/// `jpeg`, `gif`, `webp`, in any case.
pub open spec fn is_image_path(path: Seq<char>) -> bool {
    match extension_of(path) {
        Some(ext) => matches_word(ext, "png"@) || matches_word(ext, "jpg"@) || matches_word(
            ext,
            "jpeg"@,
        ) || matches_word(ext, "gif"@) || matches_word(ext, "webp"@),
        None => false,
    }
}

/// Compare a span of characters with a lowercase word, ignoring case.
pub fn span_matches(chars: &Vec<char>, start: usize, end: usize, word: &str) -> (b: bool)
    requires
        start <= end <= chars@.len(),
    ensures
        b == matches_word(chars@.subrange(start as int, end as int), word@),
{
    let n: usize = word.unicode_len();
    if end - start != n {
        return false;
    }
    let ghost text = chars@.subrange(start as int, end as int);
    let mut i: usize = 0;
    while i < n
        invariant
            i <= n,
            n == word@.len(),
            n == end - start,
            end <= chars@.len(),
            text == chars@.subrange(start as int, end as int),
            forall|j: int| 0 <= j < i ==> matches_letter(#[trigger] text[j], word@[j]),
        decreases n - i,
    {
        let c: char = chars[start + i];
        let w: char = word.get_char(i);
        assert(text[i as int] == c);
        let same: bool = c == w || ('A' <= c && c <= 'Z' && c as u32 + 32 == w as u32);
        if !same {
            return false;
        }
        i = i + 1;
    }
    true
}

/// Whether a path names an image.
pub fn is_image_file(path: &str) -> (b: bool)
    ensures
        b == is_image_path(path@),
{
    let chars = to_chars(path);
    match extension_span(&chars) {
        Some((start, end)) => span_matches(&chars, start, end, "png") || span_matches(
            &chars,
            start,
            end,
            "jpg",
        ) || span_matches(&chars, start, end, "jpeg") || span_matches(&chars, start, end, "gif")
            || span_matches(&chars, start, end, "webp"),
        None => false,
    }
}

/// What a path given on the command line turned out to be.
#[derive(Clone, Copy, Debug, PartialEq, Eq, Structural)]
pub enum PathKind {
    File,
    Directory,
    /// A directory that could not be read.
    Unreadable,
    Missing,
}

/// A path given on the command line, with the files directly inside it if
/// it is a directory.
pub struct Listing {
    pub path: String,
    pub kind: PathKind,
    pub files: Vec<String>,
}

/// Why no image list could be made.
#[derive(Clone, Copy, Debug, PartialEq, Eq, Structural)]
pub enum CollectErrorKind {
    /// A file that is not a supported image.
    NotAnImage,
    /// A directory without images.
    NoImagesInDirectory,
    /// A directory that could not be read.
    UnreadableDirectory,
    /// A path that does not exist.
    MissingPath,
    /// No image at all.
    NoImages,
}

/// An error with the path it is about; the path is empty where the error
/// is about no single path.
#[derive(Debug)]
pub struct CollectError {
    pub kind: CollectErrorKind,
    pub path: String,
}

impl View for CollectError {
    type V = (CollectErrorKind, Seq<char>);

    open spec fn view(&self) -> (CollectErrorKind, Seq<char>) {
        (self.kind, self.path@)
    }
}

impl CollectError {
    /// The message shown to the user.
    pub fn message(&self) -> (text: String)
        ensures
            text@ == match self.kind {
                CollectErrorKind::NotAnImage => "Not a supported image file: "@ + self.path@,
                CollectErrorKind::NoImagesInDirectory => "No image files found in directory: "@
                    + self.path@,
                CollectErrorKind::UnreadableDirectory => "Cannot read directory: "@ + self.path@,
                CollectErrorKind::MissingPath => "Path does not exist: "@ + self.path@,
                CollectErrorKind::NoImages => "No image files found"@,
            },
    {
        match self.kind {
            CollectErrorKind::NotAnImage => String::from_str("Not a supported image file: ").concat(
                self.path.as_str(),
            ),
            CollectErrorKind::NoImagesInDirectory => String::from_str(
                "No image files found in directory: ",
            ).concat(self.path.as_str()),
            CollectErrorKind::UnreadableDirectory => String::from_str(
                "Cannot read directory: ",
            ).concat(self.path.as_str()),
            CollectErrorKind::MissingPath => String::from_str("Path does not exist: ").concat(
                self.path.as_str(),
            ),
            CollectErrorKind::NoImages => String::from_str("No image files found"),
        }
    }
}

/// Whether `a` comes before `b` in the order of their bytes: at the first
/// byte that differs `a` has the smaller one, or `a` is a proper prefix.
pub open spec fn bytes_before(a: Seq<u8>, b: Seq<u8>) -> bool
    decreases a.len(),
{
    if b.len() == 0 {
        false
    } else if a.len() == 0 {
        true
    } else if a[0] != b[0] {
        a[0] < b[0]
    } else {
        bytes_before(a.drop_first(), b.drop_first())
    }
}

/// Whether one text comes before another.
pub fn text_before(a: &str, b: &str) -> (r: bool)
    ensures
        r == bytes_before(a.spec_bytes(), b.spec_bytes()),
{
    let x = a.as_bytes();
    let y = b.as_bytes();
    let mut i: usize = 0;
    assert(x@.subrange(0, x@.len() as int) =~= x@);
    assert(y@.subrange(0, y@.len() as int) =~= y@);
    while i < x.len() && i < y.len()
        invariant
            i <= x@.len(),
            i <= y@.len(),
            x@ == a.spec_bytes(),
            y@ == b.spec_bytes(),
            bytes_before(x@, y@) == bytes_before(
                x@.subrange(i as int, x@.len() as int),
                y@.subrange(i as int, y@.len() as int),
            ),
        decreases x@.len() - i,
    {
        let ghost xs = x@.subrange(i as int, x@.len() as int);
        let ghost ys = y@.subrange(i as int, y@.len() as int);
        assert(xs.drop_first() =~= x@.subrange(i as int + 1, x@.len() as int));
        assert(ys.drop_first() =~= y@.subrange(i as int + 1, y@.len() as int));
        assert(xs[0] == x@[i as int] && ys[0] == y@[i as int]);
        assert(xs.len() > 0 && ys.len() > 0);
        if x[i] != y[i] {
            return x[i] < y[i];
        }
        i = i + 1;
    }
    assert(x@.subrange(i as int, x@.len() as int).len() == x@.len() - i);
    assert(y@.subrange(i as int, y@.len() as int).len() == y@.len() - i);
    i < y.len()
}

/// Whether texts stand in non-decreasing order of their bytes.
pub open spec fn in_order(list: Seq<Seq<char>>) -> bool {
    forall|i: int, j: int|
        0 <= i < j < list.len() ==> !bytes_before(
            encode_utf8(#[trigger] list[j]),
            encode_utf8(#[trigger] list[i]),
        )
}

/// The order of bytes is transitive and never holds both ways.
pub proof fn lemma_bytes_before_order(a: Seq<u8>, b: Seq<u8>, c: Seq<u8>)
    ensures
        !(bytes_before(a, b) && bytes_before(b, a)),
        bytes_before(a, b) && bytes_before(b, c) ==> bytes_before(a, c),
        !bytes_before(b, a) && !bytes_before(c, b) ==> !bytes_before(c, a),
    decreases a.len() + b.len() + c.len(),
{
    if a.len() > 0 && b.len() > 0 {
        if c.len() > 0 {
            lemma_bytes_before_order(a.drop_first(), b.drop_first(), c.drop_first());
        } else {
            lemma_bytes_before_order(a.drop_first(), b.drop_first(), c);
        }
    }
}

/// A list with one more text, put behind the last entry that does not come
/// after it.
pub open spec fn placed_in_order(list: Seq<Seq<char>>, text: Seq<char>) -> Seq<Seq<char>>
    decreases list.len(),
{
    if list.len() == 0 || !bytes_before(encode_utf8(text), encode_utf8(list.last())) {
        list.push(text)
    } else {
        placed_in_order(list.drop_last(), text).push(list.last())
    }
}

/// The texts of a list in the order of their bytes; equal texts keep the
/// order they came in.
pub open spec fn sorted(list: Seq<Seq<char>>) -> Seq<Seq<char>>
    decreases list.len(),
{
    if list.len() == 0 {
        list
    } else {
        placed_in_order(sorted(list.drop_last()), list.last())
    }
}

/// Placing a text keeps a list in order and adds just that text.
pub proof fn lemma_placed_in_order(list: Seq<Seq<char>>, text: Seq<char>)
    requires
        in_order(list),
    ensures
        in_order(placed_in_order(list, text)),
        placed_in_order(list, text).to_multiset() == list.to_multiset().insert(text),
        placed_in_order(list, text).len() == list.len() + 1,
        forall|i: int|
            0 <= i < placed_in_order(list, text).len() ==> (#[trigger] placed_in_order(
                list,
                text,
            )[i]) == text || list.contains(placed_in_order(list, text)[i]),
    decreases list.len(),
{
    let out = placed_in_order(list, text);
    list.to_multiset_ensures();
    if list.len() == 0 || !bytes_before(encode_utf8(text), encode_utf8(list.last())) {
        assert forall|i: int, j: int| 0 <= i < j < out.len() implies !bytes_before(
            encode_utf8(#[trigger] out[j]),
            encode_utf8(#[trigger] out[i]),
        ) by {
            if j == list.len() {
                if i < list.len() - 1 {
                    assert(!bytes_before(encode_utf8(list[list.len() - 1]), encode_utf8(list[i])));
                }
                lemma_bytes_before_order(
                    encode_utf8(list[i]),
                    encode_utf8(list.last()),
                    encode_utf8(text),
                );
            } else {
                assert(out[i] == list[i] && out[j] == list[j]);
            }
        }
        assert forall|i: int| 0 <= i < out.len() implies (#[trigger] out[i]) == text
            || list.contains(out[i]) by {
            if i < list.len() {
                assert(out[i] == list[i]);
            }
        }
    } else {
        let head = list.drop_last();
        let last = list.last();
        assert(in_order(head)) by {
            assert forall|i: int, j: int| 0 <= i < j < head.len() implies !bytes_before(
                encode_utf8(#[trigger] head[j]),
                encode_utf8(#[trigger] head[i]),
            ) by {
                assert(head[i] == list[i] && head[j] == list[j]);
            }
        }
        lemma_placed_in_order(head, text);
        let inner = placed_in_order(head, text);
        head.to_multiset_ensures();
        inner.to_multiset_ensures();
        assert(list =~= head.push(last));
        assert(out.to_multiset() =~= list.to_multiset().insert(text));
        assert forall|i: int, j: int| 0 <= i < j < out.len() implies !bytes_before(
            encode_utf8(#[trigger] out[j]),
            encode_utf8(#[trigger] out[i]),
        ) by {
            if j == inner.len() {
                // out[j] is the old last entry; out[i] is the text or an old entry.
                assert(out[i] == inner[i]);
                if inner[i] == text {
                    lemma_bytes_before_order(
                        encode_utf8(text),
                        encode_utf8(last),
                        encode_utf8(text),
                    );
                } else {
                    let k = choose|k: int| 0 <= k < head.len() && head[k] == inner[i];
                    assert(head[k] == list[k]);
                    assert(!bytes_before(encode_utf8(list[list.len() - 1]), encode_utf8(list[k])));
                }
            } else {
                assert(out[i] == inner[i] && out[j] == inner[j]);
            }
        }
        assert forall|i: int| 0 <= i < out.len() implies (#[trigger] out[i]) == text
            || list.contains(out[i]) by {
            if i < inner.len() {
                assert(out[i] == inner[i]);
                if inner[i] != text {
                    let k = choose|k: int| 0 <= k < head.len() && head[k] == inner[i];
                    assert(list[k] == head[k]);
                }
            } else {
                assert(out[i] == list[list.len() - 1]);
            }
        }
    }
}

/// Sorting gives a list in order that holds the same texts as often.
pub proof fn lemma_sorted(list: Seq<Seq<char>>)
    ensures
        in_order(sorted(list)),
        sorted(list).to_multiset() == list.to_multiset(),
        sorted(list).len() == list.len(),
    decreases list.len(),
{
    list.to_multiset_ensures();
    if list.len() > 0 {
        lemma_sorted(list.drop_last());
        lemma_placed_in_order(sorted(list.drop_last()), list.last());
        list.drop_last().to_multiset_ensures();
        assert(list =~= list.drop_last().push(list.last()));
    }
}

/// Put a text into a list, behind the last entry that does not come after
/// it.
pub fn insert_in_order(list: &mut Vec<String>, text: String)
    ensures
        texts(final(list)@) == placed_in_order(texts(old(list)@), text@),
{
    let ghost start = texts(list@);
    let mut at: usize = list.len();
    assert(start.subrange(0, at as int) =~= start);
    assert(start.subrange(at as int, start.len() as int) =~= Seq::<Seq<char>>::empty());
    assert(placed_in_order(start, text@) =~= placed_in_order(start.subrange(0, at as int), text@)
        + start.subrange(at as int, start.len() as int));
    while at > 0 && text_before(text.as_str(), list[at - 1].as_str())
        invariant
            at <= list@.len(),
            list@ == old(list)@,
            start == texts(list@),
            placed_in_order(start, text@) == placed_in_order(
                start.subrange(0, at as int),
                text@,
            ) + start.subrange(at as int, start.len() as int),
        decreases at,
    {
        proof {
            let head = start.subrange(0, at as int);
            assert(head.last() == list@[at as int - 1]@);
            assert(head.drop_last() =~= start.subrange(0, at as int - 1));
            assert(placed_in_order(head, text@) == placed_in_order(head.drop_last(), text@).push(
                head.last(),
            ));
            assert(placed_in_order(head.drop_last(), text@).push(head.last()) + start.subrange(
                at as int,
                start.len() as int,
            ) =~= placed_in_order(head.drop_last(), text@) + start.subrange(
                at as int - 1,
                start.len() as int,
            ));
        }
        at = at - 1;
    }
    proof {
        let head = start.subrange(0, at as int);
        if at > 0 {
            assert(head.last() == list@[at as int - 1]@);
        }
        assert(placed_in_order(head, text@) == head.push(text@));
    }
    let ghost text_view = text@;
    list.insert(at, text);
    assert(texts(list@) =~= start.subrange(0, at as int).push(text_view) + start.subrange(
        at as int,
        start.len() as int,
    ));
}

/// The entries of a list that name images, in their order.
pub open spec fn images_among(files: Seq<Seq<char>>) -> Seq<Seq<char>>
    decreases files.len(),
{
    if files.len() == 0 {
        files
    } else if is_image_path(files.last()) {
        images_among(files.drop_last()).push(files.last())
    } else {
        images_among(files.drop_last())
    }
}

/// A list without repeats: of equal texts only the first stays.
pub open spec fn without_repeats(list: Seq<Seq<char>>) -> Seq<Seq<char>>
    decreases list.len(),
{
    if list.len() == 0 {
        list
    } else if list.drop_last().contains(list.last()) {
        without_repeats(list.drop_last())
    } else {
        without_repeats(list.drop_last()).push(list.last())
    }
}

/// The images that one path contributes: the file itself if it is an
/// image; of a directory the images directly inside it, sorted. Anything
/// else is an error.
pub open spec fn images_of(path: Seq<char>, kind: PathKind, files: Seq<Seq<char>>) -> Result<
    Seq<Seq<char>>,
    (CollectErrorKind, Seq<char>),
> {
    match kind {
        PathKind::File => if is_image_path(path) {
            Ok(seq![path])
        } else {
            Err((CollectErrorKind::NotAnImage, path))
        },
        PathKind::Directory => if images_among(files).len() == 0 {
            Err((CollectErrorKind::NoImagesInDirectory, path))
        } else {
            Ok(sorted(images_among(files)))
        },
        PathKind::Unreadable => Err((CollectErrorKind::UnreadableDirectory, path)),
        PathKind::Missing => Err((CollectErrorKind::MissingPath, path)),
    }
}

/// The images that a run of paths contributes, in the order of the paths;
/// the first error ends the run.
pub open spec fn images_of_all(listings: Seq<Listing>) -> Result<
    Seq<Seq<char>>,
    (CollectErrorKind, Seq<char>),
>
    decreases listings.len(),
{
    if listings.len() == 0 {
        Ok(Seq::<Seq<char>>::empty())
    } else {
        match images_of_all(listings.drop_last()) {
            Err(e) => Err(e),
            Ok(head) => match images_of(
                listings.last().path@,
                listings.last().kind,
                texts(listings.last().files@),
            ) {
                Err(e) => Err(e),
                Ok(images) => Ok(head + images),
            },
        }
    }
}

/// The image list for the paths of the command line: what each contributes,
/// without repeats; an error when nothing is left.
pub open spec fn image_list(listings: Seq<Listing>) -> Result<
    Seq<Seq<char>>,
    (CollectErrorKind, Seq<char>),
> {
    match images_of_all(listings) {
        Err(e) => Err(e),
        Ok(all) => if without_repeats(all).len() == 0 {
            Err((CollectErrorKind::NoImages, Seq::<char>::empty()))
        } else {
            Ok(without_repeats(all))
        },
    }
}

/// Whether a result is what its model says.
pub open spec fn result_is(
    r: Result<Vec<String>, CollectError>,
    model: Result<Seq<Seq<char>>, (CollectErrorKind, Seq<char>)>,
) -> bool {
    match r {
        Ok(list) => model == Ok::<Seq<Seq<char>>, (CollectErrorKind, Seq<char>)>(texts(list@)),
        Err(e) => model == Err::<Seq<Seq<char>>, (CollectErrorKind, Seq<char>)>(e@),
    }
}

/// The images that one path contributes.
pub fn collect_images_from_path(listing: &Listing) -> (r: Result<Vec<String>, CollectError>)
    ensures
        result_is(r, images_of(listing.path@, listing.kind, texts(listing.files@))),
{
    match listing.kind {
        PathKind::File => {
            if is_image_file(listing.path.as_str()) {
                let mut list: Vec<String> = Vec::new();
                list.push(listing.path.clone());
                assert(texts(list@) =~= seq![listing.path@]);
                Ok(list)
            } else {
                Err(CollectError { kind: CollectErrorKind::NotAnImage, path: listing.path.clone() })
            }
        },
        PathKind::Directory => {
            let mut list: Vec<String> = Vec::new();
            let mut i: usize = 0;
            let ghost files = texts(listing.files@);
            assert(files.subrange(0, 0) =~= Seq::<Seq<char>>::empty());
            assert(texts(list@) =~= Seq::<Seq<char>>::empty());
            while i < listing.files.len()
                invariant
                    i <= listing.files@.len(),
                    files == texts(listing.files@),
                    texts(list@) == sorted(images_among(files.subrange(0, i as int))),
                    list@.len() == images_among(files.subrange(0, i as int)).len(),
                decreases listing.files@.len() - i,
            {
                proof {
                    let upto = files.subrange(0, i as int + 1);
                    assert(upto.drop_last() =~= files.subrange(0, i as int));
                    assert(upto.last() == listing.files@[i as int]@);
                    lemma_sorted(images_among(upto));
                    lemma_sorted(images_among(upto.drop_last()));
                }
                if is_image_file(listing.files[i].as_str()) {
                    let ghost images = images_among(files.subrange(0, i as int)).push(
                        listing.files@[i as int]@,
                    );
                    assert(images.drop_last() =~= images_among(files.subrange(0, i as int)));
                    insert_in_order(&mut list, listing.files[i].clone());
                }
                i = i + 1;
            }
            assert(files.subrange(0, i as int) =~= files);
            if list.len() == 0 {
                Err(
                    CollectError {
                        kind: CollectErrorKind::NoImagesInDirectory,
                        path: listing.path.clone(),
                    },
                )
            } else {
                Ok(list)
            }
        },
        PathKind::Unreadable => Err(
            CollectError { kind: CollectErrorKind::UnreadableDirectory, path: listing.path.clone() },
        ),
        PathKind::Missing => Err(
            CollectError { kind: CollectErrorKind::MissingPath, path: listing.path.clone() },
        ),
    }
}

/// Whether a text is among the first `upto` of a list.
fn listed_before(list: &Vec<String>, upto: usize, text: &String) -> (b: bool)
    requires
        upto <= list@.len(),
    ensures
        b == texts(list@).subrange(0, upto as int).contains(text@),
{
    let ghost head = texts(list@).subrange(0, upto as int);
    let mut i: usize = 0;
    while i < upto
        invariant
            i <= upto <= list@.len(),
            head == texts(list@).subrange(0, upto as int),
            forall|j: int| 0 <= j < i ==> head[j] != text@,
        decreases upto - i,
    {
        assert(head[i as int] == list@[i as int]@);
        if list[i] == *text {
            return true;
        }
        i = i + 1;
    }
    false
}

/// The image list for the paths of the command line.
pub fn collect_images(listings: &Vec<Listing>) -> (r: Result<Vec<String>, CollectError>)
    ensures
        result_is(r, image_list(listings@)),
{
    let mut all: Vec<String> = Vec::new();
    let mut i: usize = 0;
    assert(listings@.subrange(0, 0) =~= Seq::<Listing>::empty());
    assert(texts(all@) =~= Seq::<Seq<char>>::empty());
    while i < listings.len()
        invariant
            i <= listings@.len(),
            images_of_all(listings@.subrange(0, i as int)) == Ok::<
                Seq<Seq<char>>,
                (CollectErrorKind, Seq<char>),
            >(texts(all@)),
        decreases listings@.len() - i,
    {
        let ghost upto = listings@.subrange(0, i as int + 1);
        proof {
            assert(upto.drop_last() =~= listings@.subrange(0, i as int));
            assert(upto.last() == listings@[i as int]);
        }
        match collect_images_from_path(&listings[i]) {
            Err(e) => {
                proof {
                    lemma_error_ends_run(listings@, i as int + 1);
                }
                return Err(e);
            },
            Ok(images) => {
                let ghost before = texts(all@);
                let mut images = images;
                let ghost added = texts(images@);
                all.append(&mut images);
                assert(texts(all@) =~= before + added);
            },
        }
        i = i + 1;
    }
    assert(listings@.subrange(0, i as int) =~= listings@);
    let mut out: Vec<String> = Vec::new();
    let mut k: usize = 0;
    assert(texts(all@).subrange(0, 0) =~= Seq::<Seq<char>>::empty());
    assert(texts(out@) =~= Seq::<Seq<char>>::empty());
    while k < all.len()
        invariant
            k <= all@.len(),
            texts(out@) == without_repeats(texts(all@).subrange(0, k as int)),
        decreases all@.len() - k,
    {
        proof {
            let upto = texts(all@).subrange(0, k as int + 1);
            assert(upto.drop_last() =~= texts(all@).subrange(0, k as int));
            assert(upto.last() == all@[k as int]@);
        }
        if !listed_before(&all, k, &all[k]) {
            let ghost before = texts(out@);
            out.push(all[k].clone());
            assert(texts(out@) =~= before.push(all@[k as int]@));
        }
        k = k + 1;
    }
    assert(texts(all@).subrange(0, k as int) =~= texts(all@));
    if out.len() == 0 {
        Err(CollectError { kind: CollectErrorKind::NoImages, path: String::new() })
    } else {
        Ok(out)
    }
}

/// Once a prefix of the paths ends in an error, the whole run ends in it.
pub proof fn lemma_error_ends_run(listings: Seq<Listing>, upto: int)
    requires
        0 <= upto <= listings.len(),
        images_of_all(listings.subrange(0, upto)) is Err,
    ensures
        images_of_all(listings) == images_of_all(listings.subrange(0, upto)),
    decreases listings.len() - upto,
{
    if upto < listings.len() {
        let next = listings.subrange(0, upto + 1);
        assert(next.drop_last() =~= listings.subrange(0, upto));
        lemma_error_ends_run(listings, upto + 1);
    } else {
        assert(listings.subrange(0, upto) =~= listings);
    }
}

} // verus!
