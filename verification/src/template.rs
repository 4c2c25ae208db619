//! Output-path templates. A template is literal text with fields in
//! braces; the fields `{name}`, `{namespace}` and `{time}` are replaced
//! by the values at hand. An unterminated brace, a bare closing brace or
//! an unknown field makes the template invalid.

use vstd::prelude::*;

use crate::strings::{find_char, first_pos, push_char, str_eq};

verus! {

/// The replacement for one field name, if the name is known.
pub open spec fn field_value(
    key: Seq<char>,
    name: Seq<char>,
    ns: Seq<char>,
    time: Seq<char>,
) -> Option<Seq<char>> {
    if key == "name"@ {
        Some(name)
    } else if key == "namespace"@ {
        Some(ns)
    } else if key == "time"@ {
        Some(time)
    } else {
        None
    }
}

/// The expansion of a template, or `None` when it is invalid.
pub open spec fn spec_expand(
    t: Seq<char>,
    name: Seq<char>,
    ns: Seq<char>,
    time: Seq<char>,
) -> Option<Seq<char>>
    decreases t.len(),
{
    if t.len() == 0 {
        Some(Seq::empty())
    } else if t[0] == '{' {
        let close = first_pos(t, '}');
        if !(1 <= close < t.len()) {
            None
        } else {
            let key = t.subrange(1, close);
            match field_value(key, name, ns, time) {
                Some(val) => match spec_expand(t.skip(close + 1), name, ns, time) {
                    Some(rest) => Some(val + rest),
                    None => None,
                },
                None => None,
            }
        }
    } else if t[0] == '}' {
        None
    } else {
        match spec_expand(t.drop_first(), name, ns, time) {
            Some(rest) => Some(seq![t[0]] + rest),
            None => None,
        }
    }
}

/// Expand a template against the given field values.
pub fn expand_template(t: &str, name: &str, ns: &str, time: &str) -> (r: Option<String>)
    ensures
        r is Some <==> spec_expand(t@, name@, ns@, time@) is Some,
        r matches Some(s) ==> Some(s@) == spec_expand(t@, name@, ns@, time@),
    decreases t@.len(),
{
    let len = t.unicode_len();
    if len == 0 {
        let r = String::new();
        proof {
            assert(r@ =~= spec_expand(t@, name@, ns@, time@)->0);
        }
        return Some(r);
    }
    let c0 = t.get_char(0);
    if c0 == '{' {
        let close = find_char(t, '}');
        if !(1 <= close && close < len) {
            return None;
        }
        let key = t.substring_char(1, close);
        proof {
            assert(key@ =~= t@.subrange(1, first_pos(t@, '}')));
        }
        let field: &str = if str_eq(key, "name") {
            name
        } else if str_eq(key, "namespace") {
            ns
        } else if str_eq(key, "time") {
            time
        } else {
            return None;
        };
        let rest_str = t.substring_char(close + 1, len);
        proof {
            assert(rest_str@ =~= t@.skip(first_pos(t@, '}') + 1));
        }
        match expand_template(rest_str, name, ns, time) {
            Some(rest) => {
                let mut out = field.to_owned();
                out.append(rest.as_str());
                Some(out)
            },
            None => None,
        }
    } else if c0 == '}' {
        None
    } else {
        let rest_str = t.substring_char(1, len);
        proof {
            assert(rest_str@ =~= t@.drop_first());
        }
        match expand_template(rest_str, name, ns, time) {
            Some(rest) => {
                let mut out = String::new();
                push_char(&mut out, c0);
                out.append(rest.as_str());
                Some(out)
            },
            None => None,
        }
    }
}

} // verus!
