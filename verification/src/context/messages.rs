//! How an application context resolves a message: through its message
//! source, then through its parent context.

use vstd::prelude::*;

use crate::config::profiles::views;
use crate::text::opt_view;

verus! {

broadcast use vstd::string::group_string_axioms;

/// The message of a code: the one the message source of the context gives,
/// else the one its parent gives.
pub open spec fn resolve_message_spec(own: Option<Seq<char>>, parent: Option<Seq<char>>) -> Option<Seq<char>> {
    match own {
        Some(m) => Some(m),
        None => parent,
    }
}

/// Returns the message of a code, from what the message source of the
/// context and its parent context gave for it.
pub fn resolve_message(own: Option<String>, parent: Option<String>) -> (r: Option<String>)
    ensures
        opt_view(r) == resolve_message_spec(opt_view(own), opt_view(parent)),
{
    match own {
        Some(m) => Some(m),
        None => parent,
    }
}

/// The messages that codes resolved to, each taken by its characters.
pub open spec fn resolved_views(resolved: Seq<Option<String>>) -> Seq<Option<Seq<char>>> {
    resolved.map_values(|o: Option<String>| opt_view(o))
}

/// The index of the first code that resolved, if one did.
pub open spec fn first_resolved(resolved: Seq<Option<Seq<char>>>) -> Option<int>
    decreases resolved.len(),
{
    if resolved.len() == 0 {
        None
    } else if resolved[0] is Some {
        Some(0)
    } else {
        match first_resolved(resolved.drop_first()) {
            Some(i) => Some(i + 1),
            None => None,
        }
    }
}

/// The message of a resolvable: that of its first code that resolves, else
/// its default message; when neither exists the error names its last code,
/// or no code when it has none.
pub open spec fn message_from_codes_spec(
    resolved: Seq<Option<Seq<char>>>,
    default_message: Option<Seq<char>>,
    codes: Seq<Seq<char>>,
) -> Result<Seq<char>, Seq<char>> {
    match first_resolved(resolved) {
        Some(i) => Ok(resolved[i].unwrap()),
        None => match default_message {
            Some(m) => Ok(m),
            None => Err(
                if codes.len() == 0 {
                    Seq::empty()
                } else {
                    codes.last()
                },
            ),
        },
    }
}

/// Returns the message of a resolvable, from what each of its codes
/// resolved to, in their order, and from its default message; the error
/// holds the code that is reported missing.
pub fn message_from_codes(
    resolved: Vec<Option<String>>,
    default_message: Option<String>,
    codes: &Vec<String>,
) -> (r: Result<String, String>)
    ensures
        message_from_codes_spec(resolved_views(resolved@), opt_view(default_message), views(codes@))
            == match r {
            Ok(m) => Ok::<Seq<char>, Seq<char>>(m@),
            Err(c) => Err(c@),
        },
{
    let ghost all = resolved_views(resolved@);
    let mut rest = resolved;
    let ghost mut n: int = 0;
    while rest.len() > 0
        invariant
            all == resolved_views(resolved@),
            0 <= n <= all.len(),
            resolved_views(rest@) == all.skip(n),
            first_resolved(all) == match first_resolved(all.skip(n)) {
                Some(i) => Some(i + n),
                None => None,
            },
        decreases rest.len(),
    {
        let ghost pre = rest@;
        assert(resolved_views(pre).len() == pre.len());
        assert(resolved_views(pre)[0] == opt_view(pre[0]));
        let next = rest.remove(0);
        assert(all.skip(n)[0] == opt_view(next));
        match next {
            Some(m) => {
                assert(all[n] == opt_view(Some(m)));
                assert(first_resolved(all.skip(n)) == Some(0int));
                assert(first_resolved(all) == Some(n));
                return Ok(m);
            },
            None => {
                assert(all.skip(n).drop_first() =~= all.skip(n + 1));
                proof {
                    n = n + 1;
                }
                assert(resolved_views(rest@) =~= all.skip(n));
            },
        }
    }
    assert(all.skip(n).len() == 0);
    match default_message {
        Some(m) => Ok(m),
        None => {
            let ghost views = views(codes@);
            if codes.len() == 0 {
                Err(String::new())
            } else {
                let last = codes[codes.len() - 1].clone();
                assert(views.last() == codes@[codes.len() - 1]@);
                Err(last)
            }
        },
    }
}

/// The message of a code, or the default message when the code does not
/// resolve.
pub fn message_or_default(resolved: Option<String>, default_message: Option<&str>) -> (r: Option<String>)
    ensures
        opt_view(r) == match resolved {
            Some(m) => Some(m@),
            None => match default_message {
                Some(d) => Some(d@),
                None => None,
            },
        },
{
    match resolved {
        Some(m) => Some(m),
        None => match default_message {
            Some(d) => Some(d.to_owned()),
            None => None,
        },
    }
}

} // verus!
