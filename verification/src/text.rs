//! Text helpers: deriving a file name from a path, and formatting tile ids
//! in decimal. Paths use `/` as the separator.

use vstd::prelude::*;

verus! {

/// `s` without its trailing slashes and trailing `.` path components: a
/// final `.` that stands alone or right after a slash names the current
/// directory and is dropped, as the platform's path rules drop it.
pub open spec fn strip_trailing_cur_dirs(s: Seq<char>) -> Seq<char>
    decreases s.len(),
{
    if s.len() == 0 {
        s
    } else if s.last() == '/' {
        strip_trailing_cur_dirs(s.drop_last())
    } else if s.last() == '.' && (s.len() == 1 || s[s.len() - 2] == '/') {
        strip_trailing_cur_dirs(s.drop_last())
    } else {
        s
    }
}

/// The suffix of `s` after its last slash; `s` itself when it has none.
pub open spec fn after_last_slash(s: Seq<char>) -> Seq<char>
    decreases s.len(),
{
    if s.len() == 0 {
        s
    } else if s.last() == '/' {
        Seq::empty()
    } else {
        after_last_slash(s.drop_last()).push(s.last())
    }
}

/// The file-name component of a path: what follows the last slash once
/// trailing slashes and trailing `.` components are dropped. There is none
/// when that is empty or is the parent component `..`.
pub open spec fn spec_file_name(s: Seq<char>) -> Option<Seq<char>> {
    let base = after_last_slash(strip_trailing_cur_dirs(s));
    if base.len() == 0 || base == seq!['.', '.'] {
        None
    } else {
        Some(base)
    }
}

/// The file-name component of `path`, per [`spec_file_name`].
pub fn file_name_of(path: &str) -> (r: Option<String>)
    ensures
        match r {
            Some(name) => spec_file_name(path@) == Some(name@),
            None => spec_file_name(path@) is None,
        },
{
    let len = path.unicode_len();
    let mut end = len;
    proof {
        assert(path@.subrange(0, len as int) =~= path@);
    }
    loop
        invariant
            end <= len,
            len == path@.len(),
            strip_trailing_cur_dirs(path@) == strip_trailing_cur_dirs(
                path@.subrange(0, end as int),
            ),
        ensures
            end <= len,
            len == path@.len(),
            strip_trailing_cur_dirs(path@) == path@.subrange(0, end as int),
        decreases end,
    {
        if end == 0 {
            break;
        }
        let c = path.get_char(end - 1);
        let dot_component = c == '.' && (end == 1 || path.get_char(end - 2) == '/');
        if c == '/' || dot_component {
            proof {
                assert(path@.subrange(0, end as int).drop_last() =~= path@.subrange(
                    0,
                    end as int - 1,
                ));
            }
            end = end - 1;
        } else {
            proof {
                let sub = path@.subrange(0, end as int);
                assert(sub.last() == c);
                if end >= 2 {
                    assert(sub[end as int - 2] == path@[end as int - 2]);
                }
                assert(strip_trailing_cur_dirs(sub) == sub);
            }
            break;
        }
    }

    let mut start: usize = 0;
    let mut i: usize = 0;
    while i < end
        invariant
            start <= i <= end <= len,
            len == path@.len(),
            after_last_slash(path@.subrange(0, i as int)) == path@.subrange(
                start as int,
                i as int,
            ),
        decreases end - i,
    {
        proof {
            assert(path@.subrange(0, i as int + 1).drop_last() =~= path@.subrange(0, i as int));
        }
        if path.get_char(i) == '/' {
            start = i + 1;
            proof {
                assert(after_last_slash(path@.subrange(0, i as int + 1)) =~= path@.subrange(
                    start as int,
                    i as int + 1,
                ));
            }
        } else {
            proof {
                assert(after_last_slash(path@.subrange(0, i as int + 1)) =~= path@.subrange(
                    start as int,
                    i as int + 1,
                ));
            }
        }
        i = i + 1;
    }
    let ghost base = after_last_slash(strip_trailing_cur_dirs(path@));
    proof {
        assert(base == path@.subrange(start as int, end as int));
    }

    if start == end {
        proof {
            assert(base.len() == 0);
        }
        return None;
    }
    if end - start == 2 && path.get_char(start) == '.' && path.get_char(start + 1) == '.' {
        proof {
            assert(base =~= seq!['.', '.']);
        }
        return None;
    }
    proof {
        if base == seq!['.', '.'] {
            assert(base.len() == 2 && base[0] == '.' && base[1] == '.');
        }
    }
    Some(String::from_str(path.substring_char(start, end)))
}

/// The character for one decimal digit.
pub open spec fn digit_char(d: int) -> char {
    if d == 0 {
        '0'
    } else if d == 1 {
        '1'
    } else if d == 2 {
        '2'
    } else if d == 3 {
        '3'
    } else if d == 4 {
        '4'
    } else if d == 5 {
        '5'
    } else if d == 6 {
        '6'
    } else if d == 7 {
        '7'
    } else if d == 8 {
        '8'
    } else {
        '9'
    }
}

/// The decimal digits of `n`, most significant first, no sign and no
/// leading zeros (a single zero for zero).
pub open spec fn dec_digits(n: nat) -> Seq<char>
    decreases n,
{
    if n < 10 {
        seq![digit_char(n as int)]
    } else {
        dec_digits(n / 10).push(digit_char((n % 10) as int))
    }
}

fn digit_to_char(d: u32) -> (r: char)
    requires
        d < 10,
    ensures
        r == digit_char(d as int),
{
    if d == 0 {
        '0'
    } else if d == 1 {
        '1'
    } else if d == 2 {
        '2'
    } else if d == 3 {
        '3'
    } else if d == 4 {
        '4'
    } else if d == 5 {
        '5'
    } else if d == 6 {
        '6'
    } else if d == 7 {
        '7'
    } else if d == 8 {
        '8'
    } else {
        '9'
    }
}

/// Relies on String::push: appends the given character to the string.
#[verifier::external_body]
pub fn push_char(s: &mut String, c: char)
    ensures
        final(s)@ == old(s)@.push(c),
{
    s.push(c);
}

/// Appends the decimal digits of `n` to `s`.
pub fn push_decimal(s: &mut String, n: u32)
    ensures
        final(s)@ == old(s)@ + dec_digits(n as nat),
    decreases n,
{
    if n >= 10 {
        push_decimal(s, n / 10);
    }
    let ghost mid = s@;
    push_char(s, digit_to_char(n % 10));
    proof {
        if n < 10 {
            assert(mid.push(digit_char((n % 10) as int)) =~= old(s)@ + dec_digits(n as nat));
        } else {
            assert(mid.push(digit_char((n % 10) as int)) =~= old(s)@ + dec_digits(n as nat));
        }
    }
}

/// The decimal representation of `n`.
pub fn u32_to_decimal(n: u32) -> (r: String)
    ensures
        r@ == dec_digits(n as nat),
{
    let mut s = String::new();
    push_decimal(&mut s, n);
    proof {
        assert(Seq::<char>::empty() + dec_digits(n as nat) =~= dec_digits(n as nat));
    }
    s
}

} // verus!
