use vstd::prelude::*;
use crate::strutil::{chars_of, string_from_chars, starts_with_char};

verus! {

/// Whitespace as a response file separates its tokens.
pub open spec fn is_token_ws(c: char) -> bool {
    c == ' ' || c == '\t' || c == '\n' || c == '\r'
}

pub open spec fn has_quote(s: Seq<char>) -> bool {
    exists|i: int| 0 <= i < s.len() && ((#[trigger] s[i]) == '"' || s[i] == '\'')
}

/// The whitespace-separated tokens of the contents, in order.
pub open spec fn spec_split_tokens(s: Seq<char>) -> Seq<Seq<char>>
    decreases s.len(),
{
    spec_split_from(s, 0, Seq::empty(), Seq::empty())
}

/// Scan from `i` with `cur` the token being gathered and `acc` the tokens
/// finished so far.
pub open spec fn spec_split_from(
    s: Seq<char>,
    i: int,
    cur: Seq<char>,
    acc: Seq<Seq<char>>,
) -> Seq<Seq<char>>
    decreases s.len() - i,
{
    if i < 0 || i >= s.len() {
        if cur.len() > 0 {
            acc.push(cur)
        } else {
            acc
        }
    } else if is_token_ws(s[i]) {
        if cur.len() > 0 {
            spec_split_from(s, i + 1, Seq::empty(), acc.push(cur))
        } else {
            spec_split_from(s, i + 1, Seq::empty(), acc)
        }
    } else {
        spec_split_from(s, i + 1, cur.push(s[i]), acc)
    }
}

/// The file a response-file token names: what follows its `@` sigil.
pub fn response_file_name(arg: &String) -> (r: Option<String>)
    ensures
        match r {
            Option::Some(name) => arg@.len() > 0 && arg@[0] == '@' && name@ == arg@.skip(1),
            Option::None => !(arg@.len() > 0 && arg@[0] == '@'),
        },
{
    if !starts_with_char(arg, '@') {
        return None;
    }
    let v = chars_of(arg.as_str());
    let mut rest: Vec<char> = Vec::new();
    let mut i: usize = 1;
    while i < v.len()
        invariant
            1 <= i <= v@.len(),
            v@.len() >= 1,
            rest@ == v@.subrange(1, i as int),
        decreases v@.len() - i,
    {
        rest.push(v[i]);
        proof {
            assert(v@.subrange(1, i + 1) =~= v@.subrange(1, i as int).push(v@[i as int]));
        }
        i = i + 1;
    }
    proof {
        assert(v@.subrange(1, v@.len() as int) =~= v@.skip(1));
    }
    Some(string_from_chars(&rest))
}

/// Split response-file contents into the tokens they stand for. Contents
/// holding a quote character are not interpreted: the caller passes the
/// token itself through and the invocation stays non-cacheable.
pub fn split_response_contents(contents: &String) -> (r: Option<Vec<String>>)
    ensures
        match r {
            Option::Some(toks) => !has_quote(contents@) && toks.deep_view() == spec_split_tokens(
                contents@,
            ),
            Option::None => has_quote(contents@),
        },
{
    let v = chars_of(contents.as_str());
    let ghost s = contents@;
    let mut i: usize = 0;
    // Refuse quoted contents before any token is built.
    while i < v.len()
        invariant
            i <= v@.len(),
            v@ == s,
            s == contents@,
            forall|j: int| 0 <= j < i ==> !((#[trigger] s[j]) == '"' || s[j] == '\''),
        decreases v@.len() - i,
    {
        let c = v[i];
        if c == '"' || c == '\'' {
            proof {
                assert(s[i as int] == '"' || s[i as int] == '\'');
                assert(has_quote(s));
            }
            return None;
        }
        i = i + 1;
    }
    let mut acc: Vec<String> = Vec::new();
    let mut cur: Vec<char> = Vec::new();
    let mut k: usize = 0;
    proof {
        assert(acc.deep_view() =~= Seq::<Seq<char>>::empty());
        assert(cur@ =~= Seq::<char>::empty());
    }
    while k < v.len()
        invariant
            k <= v@.len(),
            v@ == s,
            s == contents@,
            spec_split_tokens(s) == spec_split_from(s, k as int, cur@, acc.deep_view()),
        decreases v@.len() - k,
    {
        let ghost pre_acc = acc.deep_view();
        let ghost pre_cur = cur@;
        let c = v[k];
        if c == ' ' || c == '\t' || c == '\n' || c == '\r' {
            if cur.len() > 0 {
                let tok = string_from_chars(&cur);
                acc.push(tok);
                cur = Vec::new();
                proof {
                    assert(acc.deep_view() =~= pre_acc.push(pre_cur));
                    assert(cur@ =~= Seq::<char>::empty());
                }
            } else {
                proof {
                    assert(cur@ =~= Seq::<char>::empty());
                }
            }
        } else {
            cur.push(c);
            proof {
                assert(cur@ =~= pre_cur.push(s[k as int]));
            }
        }
        k = k + 1;
    }
    if cur.len() > 0 {
        let tok = string_from_chars(&cur);
        let ghost pre_acc = acc.deep_view();
        acc.push(tok);
        proof {
            assert(acc.deep_view() =~= pre_acc.push(cur@));
        }
    }
    Some(acc)
}

/// One step of response-file expansion: a token that does not name a
/// readable, quote-free response file passes through literally; otherwise
/// its tokens are pushed onto the scan stack, last token deepest, so the
/// scan pops them in order. The caller reads the named file and passes the
/// contents, or nothing when the file cannot be read.
pub fn expand_step(arg: String, contents: Option<&String>, stack: &mut Vec<String>) -> (r: Option<
    String,
>)
    ensures
        match r {
            Option::Some(out) => final(stack)@ == old(stack)@ && out@ == arg@ && (!(arg@.len() > 0
                && arg@[0] == '@') || contents is None || has_quote(contents.unwrap()@)),
            Option::None => arg@.len() > 0 && arg@[0] == '@' && (contents matches Some(c)
                && !has_quote(c@) && final(stack).deep_view() == old(stack).deep_view()
                + spec_split_tokens(c@).reverse()),
        },
{
    if !starts_with_char(&arg, '@') {
        return Some(arg);
    }
    let c = match contents {
        Option::Some(c) => c,
        Option::None => {
            return Some(arg);
        },
    };
    let toks = match split_response_contents(c) {
        Option::Some(t) => t,
        Option::None => {
            return Some(arg);
        },
    };
    let ghost base = stack.deep_view();
    let ghost ts = toks.deep_view();
    let mut j: usize = toks.len();
    proof {
        assert(base + ts.reverse().take(0) =~= base);
    }
    while j > 0
        invariant
            j <= ts.len(),
            ts == toks.deep_view(),
            stack.deep_view() == base + ts.reverse().take(ts.len() - j),
        decreases j,
    {
        let ghost pre = stack.deep_view();
        stack.push(toks[j - 1].clone());
        proof {
            assert(stack.deep_view() =~= pre.push(ts[j - 1]));
            assert(ts.reverse()[ts.len() - j] == ts[j - 1]);
            assert(pre.push(ts[j - 1]) =~= base + ts.reverse().take(ts.len() - j + 1));
        }
        j = j - 1;
    }
    proof {
        assert(base + ts.reverse().take(ts.len() as int) =~= base + ts.reverse());
    }
    None
}

} // verus!
