//! Free-text conversion requests: the words before the first separator name
//! the base currency, the words after it the quote currency, as in
//! "turkish lira in usd".

use vstd::prelude::*;

use vstd::string::StringExecFns;

use crate::currency::{lookup_symbol, lower_of, Currency, ParseCurrencyError, SymbolPair};

verus! {

/// Whether `w` reads the same as one of the separators.
pub open spec fn contains_str(seps: Seq<&str>, w: Seq<char>) -> bool {
    exists|j: int| 0 <= j < seps.len() && (#[trigger] seps[j])@ == w
}

/// The words joined with single spaces.
pub open spec fn join_spec(ws: Seq<&str>) -> Seq<char>
    decreases ws.len(),
{
    if ws.len() == 0 {
        Seq::empty()
    } else if ws.len() == 1 {
        ws.last()@
    } else {
        join_spec(ws.drop_last()) + " "@ + ws.last()@
    }
}

/// Whether two strings read the same.
fn str_eq(a: &str, b: &str) -> (r: bool)
    ensures
        r == (a@ == b@),
{
    let sa = a.to_owned();
    let sb = b.to_owned();
    sa == sb
}

/// Whether `w` is one of the separators.
fn is_separator(seps: &Vec<&str>, w: &str) -> (r: bool)
    ensures
        r == contains_str(seps@, w@),
{
    let mut j: usize = 0;
    while j < seps.len()
        invariant
            0 <= j <= seps@.len(),
            forall|k: int| 0 <= k < j ==> (#[trigger] seps@[k])@ != w@,
        decreases seps@.len() - j,
    {
        if str_eq(seps[j], w) {
            return true;
        }
        j = j + 1;
    }
    false
}

/// Split the words at the first separator: what stands before it, and
/// everything after it, later separators included. Without a separator all
/// words stand before and nothing after.
pub fn partition_words_by<'a>(seperators: &Vec<&'a str>, input: &Vec<&'a str>) -> (r: (
    Vec<&'a str>,
    Vec<&'a str>,
))
    ensures
        (forall|k: int| 0 <= k < input@.len() ==> !contains_str(seperators@, (#[trigger] input@[k])@))
            ==> r.0@ == input@ && r.1@.len() == 0,
        (exists|k: int| 0 <= k < input@.len() && contains_str(seperators@, (#[trigger] input@[k])@))
            ==> exists|k: int|
            {
                &&& 0 <= k < input@.len()
                &&& contains_str(seperators@, (#[trigger] input@[k])@)
                &&& forall|j: int| 0 <= j < k ==> !contains_str(seperators@, (#[trigger] input@[j])@)
                &&& r.0@ == input@.take(k)
                &&& r.1@ == input@.skip(k + 1)
            },
{
    let mut pre: Vec<&'a str> = Vec::new();
    let mut post: Vec<&'a str> = Vec::new();
    let mut sep_at: Option<usize> = None;
    let mut i: usize = 0;
    while i < input.len()
        invariant
            0 <= i <= input@.len(),
            match sep_at {
                None => {
                    &&& forall|j: int|
                        0 <= j < i ==> !contains_str(seperators@, (#[trigger] input@[j])@)
                    &&& pre@ == input@.take(i as int)
                    &&& post@.len() == 0
                },
                Some(k) => {
                    &&& k < i
                    &&& contains_str(seperators@, input@[k as int]@)
                    &&& forall|j: int|
                        0 <= j < k ==> !contains_str(seperators@, (#[trigger] input@[j])@)
                    &&& pre@ == input@.take(k as int)
                    &&& post@ == input@.subrange(k + 1, i as int)
                },
            },
        decreases input@.len() - i,
    {
        let w = input[i];
        if sep_at.is_some() {
            post.push(w);
        } else if is_separator(seperators, w) {
            sep_at = Some(i);
        } else {
            pre.push(w);
            proof {
                assert(input@.take(i + 1).drop_last() =~= input@.take(i as int));
                assert(pre@ =~= input@.take(i + 1));
            }
        }
        proof {
            match sep_at {
                Some(k) => {
                    assert(post@ =~= input@.subrange(k + 1, i + 1));
                },
                None => {},
            }
        }
        i = i + 1;
    }
    proof {
        match sep_at {
            Some(k) => {
                assert(input@.subrange(k + 1, input@.len() as int) =~= input@.skip(k + 1));
            },
            None => {
                assert(input@.take(input@.len() as int) =~= input@);
            },
        }
    }
    (pre, post)
}

/// The words joined with single spaces.
fn join_spaced<'a>(ws: &Vec<&'a str>) -> (r: String)
    ensures
        r@ == join_spec(ws@),
{
    let mut r = String::new();
    let mut i: usize = 0;
    while i < ws.len()
        invariant
            0 <= i <= ws@.len(),
            r@ == join_spec(ws@.take(i as int)),
        decreases ws@.len() - i,
    {
        if i > 0 {
            r.append(" ");
        }
        r.append(ws[i]);
        proof {
            assert(ws@.take(i + 1).drop_last() =~= ws@.take(i as int));
            assert(ws@.take(i + 1).last() == ws@[i as int]);
            if i == 0 {
                assert(join_spec(ws@.take(0)) =~= Seq::<char>::empty());
            }
        }
        i = i + 1;
    }
    proof {
        assert(ws@.take(ws@.len() as int) =~= ws@);
    }
    r
}

/// The separators recognized between the two currency phrases.
fn separators() -> (r: Vec<&'static str>)
    ensures
        r@.len() == 7,
        r@[0]@ == "in"@ && r@[1]@ == "as"@ && r@[2]@ == "into"@ && r@[3]@ == "to"@ && r@[4]@
            == ">"@ && r@[5]@ == "->"@ && r@[6]@ == "-->"@,
{
    let mut seps: Vec<&'static str> = Vec::new();
    seps.push("in");
    seps.push("as");
    seps.push("into");
    seps.push("to");
    seps.push(">");
    seps.push("->");
    seps.push("-->");
    seps
}

/// The standard separator words and arrows.
pub open spec fn separator_views() -> Seq<Seq<char>> {
    seq!["in"@, "as"@, "into"@, "to"@, ">"@, "->"@, "-->"@]
}

/// Whether `w` reads as one of the standard separators.
pub open spec fn is_standard_separator(w: Seq<char>) -> bool {
    exists|j: int| 0 <= j < separator_views().len() && #[trigger] separator_views()[j] == w
}

/// The base and quote phrases of the request: the words before the first
/// standard separator, and the words after it, each joined with spaces.
pub open spec fn phrases(words: Seq<&str>) -> (Seq<char>, Seq<char>) {
    if exists|k: int| 0 <= k < words.len() && is_standard_separator((#[trigger] words[k])@) {
        let k = choose|k: int|
            0 <= k < words.len() && is_standard_separator((#[trigger] words[k])@) && (forall|j: int|
                0 <= j < k ==> !is_standard_separator((#[trigger] words[j])@));
        (join_spec(words.take(k)), join_spec(words.skip(k + 1)))
    } else {
        (join_spec(words), Seq::empty())
    }
}

/// Read a conversion request: the words split at the first separator give a
/// base and a quote phrase, and each phrase must name a currency. Accepted
/// exactly when both case-folded phrases are known to the registry.
pub fn parse_currencies(words: Vec<&str>) -> (r: Result<SymbolPair, ParseCurrencyError>)
    ensures
        r is Ok <==> (lookup_symbol(lower_of(phrases(words@).0)) is Some && lookup_symbol(
            lower_of(phrases(words@).1),
        ) is Some),
        r matches Ok(p) ==> Some(p.base) == lookup_symbol(lower_of(phrases(words@).0)) && Some(
            p.quote,
        ) == lookup_symbol(lower_of(phrases(words@).1)),
{
    let seps = separators();
    proof {
        assert forall|w: Seq<char>| contains_str(seps@, w) <==> is_standard_separator(w) by {
            assert(forall|j: int| 0 <= j < 7 ==> (#[trigger] seps@[j])@ == separator_views()[j]);
            if contains_str(seps@, w) {
                let j = choose|j: int| 0 <= j < seps@.len() && (#[trigger] seps@[j])@ == w;
                assert(separator_views()[j] == w);
            }
            if is_standard_separator(w) {
                let j = choose|j: int|
                    0 <= j < separator_views().len() && #[trigger] separator_views()[j] == w;
                assert(seps@[j]@ == w);
            }
        }
    }
    let (pre, post) = partition_words_by(&seps, &words);
    proof {
        if exists|k: int| 0 <= k < words@.len() && is_standard_separator((#[trigger] words@[k])@) {
            let k0 = choose|k: int|
                {
                    &&& 0 <= k < words@.len()
                    &&& contains_str(seps@, (#[trigger] words@[k])@)
                    &&& forall|j: int| 0 <= j < k ==> !contains_str(seps@, (#[trigger] words@[j])@)
                    &&& pre@ == words@.take(k)
                    &&& post@ == words@.skip(k + 1)
                };
            let k1 = choose|k: int|
                0 <= k < words@.len() && is_standard_separator((#[trigger] words@[k])@) && (
                forall|j: int| 0 <= j < k ==> !is_standard_separator((#[trigger] words@[j])@));
            assert(k0 == k1);
            assert(phrases(words@).0 == join_spec(pre@));
            assert(phrases(words@).1 == join_spec(post@));
        } else {
            assert(phrases(words@).0 == join_spec(pre@));
            assert(phrases(words@).1 =~= join_spec(post@));
        }
    }
    let base_text = join_spaced(&pre);
    let quote_text = join_spaced(&post);
    let base = match Currency::from_str(base_text.as_str()) {
        Ok(c) => c,
        Err(e) => {
            return Err(e);
        },
    };
    let quote = match Currency::from_str(quote_text.as_str()) {
        Ok(c) => c,
        Err(e) => {
            return Err(e);
        },
    };
    Ok(SymbolPair { base: base.symbol(), quote: quote.symbol() })
}

} // verus!
