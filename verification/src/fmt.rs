//! Template formatting: a `{` opens a placeholder and a following `}`
//! splices the next argument's text in declaration order; a doubled `{` and
//! a bare `}` are emitted literally; a placeholder count that does not match
//! the argument count is an arity fault.

use vstd::prelude::*;

verus! {

use vstd::string::StrSliceExecFns;
use vstd::string::StringExecFns;
use crate::text::push_char;

/// The formatted remainder of the template from position `i`, with `j`
/// arguments already consumed and `in_ph` telling whether a `{` is pending;
/// `None` on an arity mismatch in either direction.
pub open spec fn fmt_from(
    tpl: Seq<char>,
    args: Seq<Seq<char>>,
    i: int,
    j: int,
    in_ph: bool,
) -> Option<Seq<char>>
    decreases tpl.len() - i,
{
    if i < 0 || i >= tpl.len() {
        let tail: Seq<char> = if in_ph {
            seq!['{']
        } else {
            Seq::empty()
        };
        if j == args.len() {
            Some(tail)
        } else {
            None
        }
    } else {
        let c = tpl[i];
        if in_ph {
            if c == '}' {
                if 0 <= j < args.len() {
                    match fmt_from(tpl, args, i + 1, j + 1, false) {
                        Some(rest) => Some(args[j] + rest),
                        None => None,
                    }
                } else {
                    None
                }
            } else if c == '{' {
                match fmt_from(tpl, args, i + 1, j, false) {
                    Some(rest) => Some(seq!['{'] + rest),
                    None => None,
                }
            } else {
                match fmt_from(tpl, args, i + 1, j, false) {
                    Some(rest) => Some(seq!['{', c] + rest),
                    None => None,
                }
            }
        } else {
            if c == '{' {
                fmt_from(tpl, args, i + 1, j, true)
            } else {
                match fmt_from(tpl, args, i + 1, j, false) {
                    Some(rest) => Some(seq![c] + rest),
                    None => None,
                }
            }
        }
    }
}

/// The formatted template, or `None` on an arity mismatch.
pub open spec fn fmt_text(tpl: Seq<char>, args: Seq<Seq<char>>) -> Option<Seq<char>> {
    fmt_from(tpl, args, 0, 0, false)
}

/// Formats a template against a list of argument texts. Succeeds exactly
/// when the number of completed placeholders equals the number of arguments.
pub fn dyn_format(src: &str, arguments: &Vec<String>) -> (r: Option<String>)
    ensures
        match r {
            Some(s) => fmt_text(src@, arguments.deep_view()) == Some(s@),
            None => fmt_text(src@, arguments.deep_view()) is None,
        },
{
    let ghost args = arguments.deep_view();
    let n = src.unicode_len();
    let mut ret = String::new();
    let mut i: usize = 0;
    let mut j: usize = 0;
    let mut in_ph = false;
    proof {
        assert(ret@ + Seq::<char>::empty() =~= ret@);
    }
    while i < n
        invariant
            n == src@.len(),
            0 <= i <= n,
            0 <= j <= args.len(),
            args == arguments.deep_view(),
            match fmt_from(src@, args, i as int, j as int, in_ph) {
                Some(rest) => fmt_text(src@, args) == Some(ret@ + rest),
                None => fmt_text(src@, args) is None,
            },
        decreases n - i,
    {
        let ghost acc = ret@;
        let c = src.get_char(i);
        if in_ph {
            if c == '}' {
                if j < arguments.len() {
                    proof {
                        assert(args[j as int] == arguments@[j as int]@);
                    }
                    ret.append(arguments[j].as_str());
                    proof {
                        let ov = fmt_from(src@, args, i + 1, j + 1, false);
                        if ov is Some {
                            assert(acc + (args[j as int] + ov->Some_0) =~= ret@ + ov->Some_0);
                        }
                    }
                    j = j + 1;
                } else {
                    proof {
                        assert(fmt_from(src@, args, i as int, j as int, true) is None);
                    }
                    return None;
                }
            } else if c == '{' {
                push_char(&mut ret, '{');
                proof {
                    let ov = fmt_from(src@, args, i + 1, j as int, false);
                    if ov is Some {
                        assert(acc + (seq!['{'] + ov->Some_0) =~= ret@ + ov->Some_0);
                    }
                }
            } else {
                push_char(&mut ret, '{');
                push_char(&mut ret, c);
                proof {
                    let ov = fmt_from(src@, args, i + 1, j as int, false);
                    if ov is Some {
                        assert(acc + (seq!['{', c] + ov->Some_0) =~= ret@ + ov->Some_0);
                    }
                }
            }
            in_ph = false;
        } else {
            if c == '{' {
                in_ph = true;
            } else {
                push_char(&mut ret, c);
                proof {
                    let ov = fmt_from(src@, args, i + 1, j as int, false);
                    if ov is Some {
                        assert(acc + (seq![c] + ov->Some_0) =~= ret@ + ov->Some_0);
                    }
                }
            }
        }
        i = i + 1;
    }
    let ghost acc = ret@;
    if in_ph {
        push_char(&mut ret, '{');
    }
    if j < arguments.len() {
        return None;
    }
    proof {
        if in_ph {
            assert(acc + seq!['{'] =~= ret@);
        } else {
            assert(acc + Seq::<char>::empty() =~= ret@);
        }
    }
    Some(ret)
}

} // verus!
