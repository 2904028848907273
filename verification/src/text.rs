//! Small text helpers: decimal numbers and the parts of a path.

use vstd::prelude::*;
use vstd::string::*;

verus! {

/// The text of each string.
pub open spec fn texts(strings: Seq<String>) -> Seq<Seq<char>> {
    Seq::new(strings.len(), |i: int| strings[i]@)
}

/// Decimal digits of `n` as text, most significant first.
pub open spec fn decimal_text(n: nat) -> Seq<char>
    decreases n,
{
    if n < 10 {
        seq![digit_char(n)]
    } else {
        decimal_text(n / 10).push(digit_char(n % 10))
    }
}

/// The character of a decimal digit.
pub open spec fn digit_char(d: nat) -> char {
    if d == 0 {
        '0'
    } else if d == 1 {
        '1'
    } else if d == 2 {
        '2'
    } else if d == 3 {
        '3'
    } else if d == 4 {
        '4'
    } else if d == 5 {
        '5'
    } else if d == 6 {
        '6'
    } else if d == 7 {
        '7'
    } else if d == 8 {
        '8'
    } else {
        '9'
    }
}

fn digit_str(d: u128) -> (s: &'static str)
    requires
        d < 10,
    ensures
        s@ == seq![digit_char(d as nat)],
{
    proof {
        reveal_strlit("0");
        reveal_strlit("1");
        reveal_strlit("2");
        reveal_strlit("3");
        reveal_strlit("4");
        reveal_strlit("5");
        reveal_strlit("6");
        reveal_strlit("7");
        reveal_strlit("8");
        reveal_strlit("9");
    }
    let s: &'static str = if d == 0 {
        "0"
    } else if d == 1 {
        "1"
    } else if d == 2 {
        "2"
    } else if d == 3 {
        "3"
    } else if d == 4 {
        "4"
    } else if d == 5 {
        "5"
    } else if d == 6 {
        "6"
    } else if d == 7 {
        "7"
    } else if d == 8 {
        "8"
    } else {
        "9"
    };
    assert(s@ =~= seq![digit_char(d as nat)]);
    s
}

/// Append `n` in decimal to a string.
pub fn push_number(text: &mut String, n: u128)
    ensures
        final(text)@ == old(text)@ + decimal_text(n as nat),
    decreases n,
{
    if n >= 10 {
        push_number(text, n / 10);
    }
    text.append(digit_str(n % 10));
    assert(text@ =~= old(text)@ + decimal_text(n as nat));
}

/// Append a piece of text to a string.
pub fn push_str(text: &mut String, piece: &str)
    ensures
        final(text)@ == old(text)@ + piece@,
{
    text.append(piece);
}

/// Index at which the last component of a path begins: just after its last
/// `/`, or at the start.
pub open spec fn last_component_start(path: Seq<char>) -> int
    decreases path.len(),
{
    if path.len() == 0 {
        0
    } else if path.last() == '/' {
        path.len() as int
    } else {
        last_component_start(path.drop_last())
    }
}

/// The file name of a path whose components are separated by `/`: its
/// last component, where empty components and `.` do not count. There is
/// none when nothing is left or when the last component is `..`.
pub open spec fn file_name_of(path: Seq<char>) -> Option<Seq<char>>
    decreases path.len(),
{
    if path.len() == 0 {
        None
    } else if path.last() == '/' {
        file_name_of(path.drop_last())
    } else if path.last() == '.' && (path.len() == 1 || path[path.len() - 2] == '/') {
        file_name_of(path.drop_last())
    } else {
        let start = last_component_start(path);
        let name = path.subrange(start, path.len() as int);
        if name == seq!['.', '.'] {
            None
        } else {
            Some(name)
        }
    }
}

/// Index of the last `.` of a name, or -1.
pub open spec fn last_dot(name: Seq<char>) -> int
    decreases name.len(),
{
    if name.len() == 0 {
        -1
    } else if name.last() == '.' {
        name.len() - 1
    } else {
        last_dot(name.drop_last())
    }
}

/// The extension of a file name: what follows its last `.`, unless the
/// name has none or begins with its only one.
pub open spec fn extension_of_name(name: Seq<char>) -> Option<Seq<char>> {
    let dot = last_dot(name);
    if dot <= 0 {
        None
    } else {
        Some(name.subrange(dot + 1, name.len() as int))
    }
}

/// The extension of a path: that of its file name.
pub open spec fn extension_of(path: Seq<char>) -> Option<Seq<char>> {
    match file_name_of(path) {
        Some(name) => extension_of_name(name),
        None => None,
    }
}

proof fn lemma_last_component_start(path: Seq<char>)
    ensures
        0 <= last_component_start(path) <= path.len(),
        forall|i: int| last_component_start(path) <= i < path.len() ==> path[i] != '/',
        last_component_start(path) > 0 ==> path[last_component_start(path) - 1] == '/',
    decreases path.len(),
{
    if path.len() > 0 && path.last() != '/' {
        let head = path.drop_last();
        lemma_last_component_start(head);
        assert forall|i: int| last_component_start(path) <= i < path.len() implies path[i]
            != '/' by {
            if i < head.len() {
                assert(path[i] == head[i]);
            }
        }
        if last_component_start(path) > 0 {
            assert(path[last_component_start(path) - 1] == head[last_component_start(head) - 1]);
        }
    }
}

proof fn lemma_last_dot(name: Seq<char>)
    ensures
        -1 <= last_dot(name) < name.len(),
        forall|i: int| last_dot(name) < i < name.len() ==> name[i] != '.',
        last_dot(name) >= 0 ==> name[last_dot(name)] == '.',
    decreases name.len(),
{
    if name.len() > 0 && name.last() != '.' {
        let head = name.drop_last();
        lemma_last_dot(head);
        assert forall|i: int| last_dot(name) < i < name.len() implies name[i] != '.' by {
            if i < head.len() {
                assert(name[i] == head[i]);
            }
        }
        if last_dot(name) >= 0 {
            assert(name[last_dot(name)] == head[last_dot(head)]);
        }
    }
}

/// The characters of a string.
pub fn to_chars(text: &str) -> (chars: Vec<char>)
    ensures
        chars@ == text@,
{
    let n: usize = text.unicode_len();
    let mut chars: Vec<char> = Vec::new();
    let mut i: usize = 0;
    while i < n
        invariant
            i <= n,
            n == text@.len(),
            chars@ == text@.subrange(0, i as int),
        decreases n - i,
    {
        chars.push(text.get_char(i));
        i = i + 1;
        assert(chars@ =~= text@.subrange(0, i as int));
    }
    assert(text@.subrange(0, n as int) =~= text@);
    chars
}

/// Bounds of the file name within the characters of a path.
pub fn file_name_span(chars: &Vec<char>) -> (span: Option<(usize, usize)>)
    ensures
        match span {
            Some((start, end)) => start <= end <= chars@.len() && file_name_of(chars@) == Some(
                chars@.subrange(start as int, end as int),
            ),
            None => file_name_of(chars@) is None,
        },
{
    let mut end: usize = chars.len();
    assert(chars@.subrange(0, end as int) =~= chars@);
    while end > 0
        invariant
            end <= chars@.len(),
            file_name_of(chars@) == file_name_of(chars@.subrange(0, end as int)),
        decreases end,
    {
        let ghost head = chars@.subrange(0, end as int);
        if chars[end - 1] == '/' {
            assert(head.drop_last() =~= chars@.subrange(0, end as int - 1));
            end = end - 1;
        } else {
            let mut start: usize = end;
            proof {
                lemma_last_component_start(head);
            }
            while start > 0 && chars[start - 1] != '/'
                invariant
                    start <= end <= chars@.len(),
                    head == chars@.subrange(0, end as int),
                    last_component_start(head) <= start,
                    forall|i: int| start <= i < end ==> chars@[i] != '/',
                decreases start,
            {
                proof {
                    lemma_last_component_start(head);
                }
                start = start - 1;
            }
            proof {
                lemma_last_component_start(head);
                assert(start == last_component_start(head)) by {
                    if start > 0 {
                        assert(head[start as int - 1] == '/');
                    }
                }
            }
            let ghost name = head.subrange(start as int, end as int);
            if end - start == 1 && chars[start] == '.' {
                assert(head.drop_last() =~= chars@.subrange(0, end as int - 1));
                end = end - 1;
            } else if end - start == 2 && chars[start] == '.' && chars[start + 1] == '.' {
                assert(name =~= seq!['.', '.']);
                return None;
            } else {
                assert(!(head.last() == '.' && (head.len() == 1 || head[head.len() - 2] == '/')))
                    by {
                    if head.last() == '.' && head.len() > 1 && head[head.len() - 2] == '/' {
                        assert(chars@[end as int - 2] == '/');
                    }
                }
                assert(name != seq!['.', '.']) by {
                    if name =~= seq!['.', '.'] {
                        assert(name.len() == 2);
                        assert(name[0] == '.');
                        assert(name[1] == '.');
                    }
                }
                assert(name =~= chars@.subrange(start as int, end as int));
                return Some((start, end));
            }
        }
    }
    assert(chars@.subrange(0, 0) =~= Seq::<char>::empty());
    None
}

/// The file name of a path.
pub fn file_name(path: &str) -> (name: Option<&str>)
    ensures
        match name {
            Some(n) => file_name_of(path@) == Some(n@),
            None => file_name_of(path@) is None,
        },
{
    let chars = to_chars(path);
    match file_name_span(&chars) {
        Some((start, end)) => Some(path.substring_char(start, end)),
        None => None,
    }
}

/// Bounds of the extension within the characters of a path.
pub fn extension_span(chars: &Vec<char>) -> (span: Option<(usize, usize)>)
    ensures
        match span {
            Some((start, end)) => start <= end <= chars@.len() && extension_of(chars@) == Some(
                chars@.subrange(start as int, end as int),
            ),
            None => extension_of(chars@) is None,
        },
{
    let (start, end) = match file_name_span(chars) {
        Some(span) => span,
        None => {
            return None;
        },
    };
    let ghost name = chars@.subrange(start as int, end as int);
    let mut dot: usize = end;
    proof {
        lemma_last_dot(name);
    }
    while dot > start && chars[dot - 1] != '.'
        invariant
            start <= dot <= end <= chars@.len(),
            name == chars@.subrange(start as int, end as int),
            forall|i: int| dot <= i < end ==> chars@[i] != '.',
        decreases dot,
    {
        dot = dot - 1;
    }
    proof {
        lemma_last_dot(name);
        if dot > start {
            assert(name[dot - 1 - start] == '.');
            assert(last_dot(name) == dot - 1 - start) by {
                if last_dot(name) > dot - 1 - start {
                    assert(chars@[last_dot(name) + start] != '.');
                    assert(name[last_dot(name)] == chars@[last_dot(name) + start]);
                }
            }
        } else {
            assert(last_dot(name) == -1) by {
                if last_dot(name) >= 0 {
                    assert(name[last_dot(name)] == chars@[last_dot(name) + start]);
                }
            }
        }
    }
    if dot - start <= 1 {
        return None;
    }
    assert(name.subrange(dot - start, name.len() as int) =~= chars@.subrange(
        dot as int,
        end as int,
    ));
    Some((dot, end))
}

} // verus!
