//! JSON Pointer (RFC 6901) resolution, as `Value::pointer` resolves it.
use vstd::prelude::*;
use crate::json::{find_key, find_member, lemma_find_key_from, Json, JsonValue};
use crate::text::chars_of;

verus! {

/// `s` split at every `/` (what `str::split('/')` yields; never empty).
pub open spec fn split_slash(s: Seq<char>) -> Seq<Seq<char>>
    decreases s.len(),
{
    if s.len() == 0 {
        seq![Seq::empty()]
    } else {
        let r = split_slash(s.drop_last());
        if s.last() == '/' {
            r.push(Seq::empty())
        } else {
            r.update(r.len() - 1, r.last().push(s.last()))
        }
    }
}

/// `s` with every non-overlapping `~a` (left to right) replaced by `b`.
pub open spec fn replace_tilde(s: Seq<char>, a: char, b: char) -> Seq<char>
    decreases s.len(),
{
    if s.len() == 0 {
        Seq::empty()
    } else if s.len() >= 2 && s[0] == '~' && s[1] == a {
        seq![b] + replace_tilde(s.subrange(2, s.len() as int), a, b)
    } else {
        seq![s[0]] + replace_tilde(s.drop_first(), a, b)
    }
}

/// A reference token with `~1` and then `~0` decoded.
pub open spec fn unescape_token(t: Seq<char>) -> Seq<char> {
    replace_tilde(replace_tilde(t, '1', '/'), '0', '~')
}

/// Whether every character is an ASCII digit.
pub open spec fn all_digits(t: Seq<char>) -> bool {
    forall|i: int| 0 <= i < t.len() ==> '0' <= #[trigger] t[i] && t[i] <= '9'
}

/// The value of a string of decimal digits.
pub open spec fn digits_value(t: Seq<char>) -> nat
    decreases t.len(),
{
    if t.len() == 0 {
        0
    } else {
        digits_value(t.drop_last()) * 10 + ((t.last() as u32) - 48) as nat
    }
}

/// The array index a token denotes, if any: decimal digits without a sign and without
/// a leading zero (except `0` itself), within `usize`.
pub open spec fn parse_index(t: Seq<char>) -> Option<nat> {
    if t.len() == 0 || !all_digits(t) || (t[0] == '0' && t.len() != 1) || digits_value(t)
        > usize::MAX {
        None
    } else {
        Some(digits_value(t))
    }
}

/// One step of pointer resolution.
pub open spec fn pointer_step(j: Json, token: Seq<char>) -> Option<Json> {
    match j {
        Json::Object(ms) => match find_key(ms, token) {
            Some(k) => Some(ms[k].1),
            None => None,
        },
        Json::Array(xs) => match parse_index(token) {
            Some(n) => if n < xs.len() { Some(xs[n as int]) } else { None },
            None => None,
        },
        _ => None,
    }
}

/// Resolution of the raw tokens from index `i` on.
pub open spec fn resolve_tokens(j: Json, tokens: Seq<Seq<char>>, i: int) -> Option<Json>
    decreases tokens.len() - i,
{
    if i < 0 || i >= tokens.len() {
        Some(j)
    } else {
        match pointer_step(j, unescape_token(tokens[i])) {
            Some(c) => resolve_tokens(c, tokens, i + 1),
            None => None,
        }
    }
}

/// The value `pointer` addresses in `j`, if any.
pub open spec fn pointer_lookup(j: Json, pointer: Seq<char>) -> Option<Json> {
    if pointer.len() == 0 {
        Some(j)
    } else if pointer[0] != '/' {
        None
    } else {
        resolve_tokens(j, split_slash(pointer.drop_first()), 0)
    }
}

/// Splits `cs[from..]` at every `/`.
pub(crate) fn split_tokens(cs: &Vec<char>, from: usize) -> (r: Vec<Vec<char>>)
    requires
        from <= cs@.len(),
    ensures
        r@.len() == split_slash(cs@.subrange(from as int, cs@.len() as int)).len(),
        forall|i: int| 0 <= i < r@.len() ==> #[trigger] r@[i]@ == split_slash(cs@.subrange(from as int, cs@.len() as int))[i],
{
    let mut done: Vec<Vec<char>> = Vec::new();
    let mut cur: Vec<char> = Vec::new();
    let mut i: usize = from;
    assert(cs@.subrange(from as int, from as int) =~= Seq::<char>::empty());
    while i < cs.len()
        invariant
            from <= i <= cs@.len(),
            split_slash(cs@.subrange(from as int, i as int)).len() == done@.len() + 1,
            forall|k: int| 0 <= k < done@.len() ==> #[trigger] done@[k]@ == split_slash(cs@.subrange(from as int, i as int))[k],
            cur@ == split_slash(cs@.subrange(from as int, i as int)).last(),
        decreases cs@.len() - i,
    {
        let c = cs[i];
        assert(cs@.subrange(from as int, i + 1).drop_last() =~= cs@.subrange(from as int, i as int));
        if c == '/' {
            done.push(cur);
            cur = Vec::new();
            assert(cur@ =~= Seq::<char>::empty());
        } else {
            cur.push(c);
        }
        i = i + 1;
    }
    done.push(cur);
    done
}

/// Replaces each non-overlapping `~a` by `b`.
fn replace_tilde_exec(s: &Vec<char>, a: char, b: char) -> (r: Vec<char>)
    ensures
        r@ == replace_tilde(s@, a, b),
{
    let mut out: Vec<char> = Vec::new();
    let mut i: usize = 0;
    assert(s@.subrange(0, s@.len() as int) =~= s@);
    assert(out@ + replace_tilde(s@, a, b) =~= replace_tilde(s@, a, b));
    while i < s.len()
        invariant
            i <= s@.len(),
            out@ + replace_tilde(s@.subrange(i as int, s@.len() as int), a, b) == replace_tilde(s@, a, b),
        decreases s@.len() - i,
    {
        let ghost rest = s@.subrange(i as int, s@.len() as int);
        if i + 1 < s.len() && s[i] == '~' && s[i + 1] == a {
            out.push(b);
            assert(rest.subrange(2, rest.len() as int) =~= s@.subrange(i + 2, s@.len() as int));
            assert(out@ + replace_tilde(s@.subrange(i + 2, s@.len() as int), a, b) =~= replace_tilde(s@, a, b));
            i = i + 2;
        } else {
            out.push(s[i]);
            assert(rest.drop_first() =~= s@.subrange(i + 1, s@.len() as int));
            assert(out@ + replace_tilde(s@.subrange(i + 1, s@.len() as int), a, b) =~= replace_tilde(s@, a, b));
            i = i + 1;
        }
    }
    assert(s@.subrange(i as int, s@.len() as int) =~= Seq::<char>::empty());
    assert(out@ =~= replace_tilde(s@, a, b));
    out
}

/// The array index a token denotes, if any.
fn parse_index_exec(t: &Vec<char>) -> (r: Option<usize>)
    ensures
        match r {
            Some(n) => parse_index(t@) == Some(n as nat),
            None => parse_index(t@) is None,
        },
{
    if t.len() == 0 {
        return None;
    }
    if t[0] == '0' && t.len() != 1 {
        return None;
    }
    let mut acc: usize = 0;
    let mut i: usize = 0;
    while i < t.len()
        invariant
            i <= t@.len(),
            t@.len() > 0,
            all_digits(t@.take(i as int)),
            acc as nat == digits_value(t@.take(i as int)),
        decreases t@.len() - i,
    {
        let c = t[i];
        if c < '0' || c > '9' {
            assert(!all_digits(t@));
            return None;
        }
        let d: usize = ((c as u32) - 48) as usize;
        assert(t@.take(i + 1).drop_last() =~= t@.take(i as int));
        if acc > (usize::MAX - d) / 10 {
            proof {
                lemma_digits_value_grows(t@, i as int + 1);
            }
            return None;
        }
        acc = acc * 10 + d;
        i = i + 1;
    }
    assert(t@.take(i as int) =~= t@);
    Some(acc)
}

/// The value of a digit string is at least the value of any of its prefixes.
proof fn lemma_digits_value_grows(t: Seq<char>, n: int)
    requires
        0 <= n <= t.len(),
    ensures
        digits_value(t.take(n)) <= digits_value(t) || !all_digits(t),
    decreases t.len() - n,
{
    if n < t.len() && all_digits(t) {
        lemma_digits_value_grows(t, n + 1);
        assert(t.take(n + 1).drop_last() =~= t.take(n));
        assert('0' <= t[n] && t[n] <= '9');
        assert(digits_value(t.take(n + 1)) == digits_value(t.take(n)) * 10 + ((t[n] as u32) - 48) as nat);
        assert(digits_value(t.take(n)) <= digits_value(t.take(n)) * 10) by (nonlinear_arith);
    } else if n == t.len() {
        assert(t.take(n) =~= t);
    }
}

/// Looks up the value `pointer` addresses in `root` (`None` when nothing is there).
pub fn resolve_pointer<'a>(root: &'a JsonValue, pointer: &str) -> (r: Option<&'a JsonValue>)
    ensures
        match r {
            Some(v) => pointer_lookup(root@, pointer@) == Some(v@),
            None => pointer_lookup(root@, pointer@) is None,
        },
{
    let cs = chars_of(pointer);
    if cs.len() == 0 {
        return Some(root);
    }
    if cs[0] != '/' {
        return None;
    }
    let tokens = split_tokens(&cs, 1);
    let ghost toks = split_slash(cs@.subrange(1, cs@.len() as int));
    assert(cs@.subrange(1, cs@.len() as int) =~= pointer@.drop_first());
    let mut cur: &JsonValue = root;
    let mut i: usize = 0;
    while i < tokens.len()
        invariant
            i <= tokens@.len(),
            tokens@.len() == toks.len(),
            forall|k: int| 0 <= k < tokens@.len() ==> #[trigger] tokens@[k]@ == toks[k],
            toks == split_slash(pointer@.drop_first()),
            pointer@.len() > 0 && pointer@[0] == '/',
            pointer_lookup(root@, pointer@) == resolve_tokens(cur@, toks, i as int),
        decreases tokens@.len() - i,
    {
        let once = replace_tilde_exec(&tokens[i], '1', '/');
        let token = replace_tilde_exec(&once, '0', '~');
        assert(token@ == unescape_token(toks[i as int]));
        match cur {
            JsonValue::Object(members) => {
                let ghost ms = cur@->Object_0;
                assert(cur@ == Json::Object(ms));
                assert(forall|k: int| 0 <= k < members@.len() ==> #[trigger] ms[k] == (members@[k].0@, members@[k].1@));
                let key = crate::text::string_of(&token);
                proof {
                    lemma_find_key_from(ms, token@, 0);
                }
                match find_member(members, key.as_str()) {
                    Some(k) => {
                        proof {
                            match find_key(ms, token@) {
                                Some(q) => {
                                    assert(ms[q] == (members@[q].0@, members@[q].1@));
                                },
                                None => {},
                            }
                            assert(ms[k as int] == (members@[k as int].0@, members@[k as int].1@));
                        }
                        cur = &members[k].1;
                    },
                    None => {
                        proof {
                            match find_key(ms, token@) {
                                Some(q) => {
                                    assert(ms[q] == (members@[q].0@, members@[q].1@));
                                },
                                None => {},
                            }
                        }
                        return None;
                    },
                }
            },
            JsonValue::Array(items) => {
                let ghost xs = cur@->Array_0;
                assert(cur@ == Json::Array(xs));
                assert(forall|k: int| 0 <= k < items@.len() ==> #[trigger] xs[k] == items@[k]@);
                match parse_index_exec(&token) {
                    Some(n) => {
                        if n < items.len() {
                            cur = &items[n];
                        } else {
                            return None;
                        }
                    },
                    None => {
                        return None;
                    },
                }
            },
            _ => {
                return None;
            },
        }
        i = i + 1;
    }
    Some(cur)
}

} // verus!
