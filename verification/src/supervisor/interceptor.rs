//! Interceptor: enforces token-level constraints on model outputs.

use vstd::hash_set::StringHashSet;
use vstd::prelude::*;

verus! {

/// A borrowed, already tokenized answer of the text-generation runtime.
pub struct TokenStream<'a> {
    pub tokens: &'a [String],
}

/// The texts of a run of tokens.
pub open spec fn token_texts(tokens: Seq<String>) -> Seq<Seq<char>> {
    tokens.map_values(|t: String| t@)
}

/// The set of texts that a list of words denies.
pub open spec fn denylist_of(words: Seq<&str>) -> Set<Seq<char>> {
    words.map_values(|w: &str| w@).to_set()
}

/// The test a token must pass to be kept: it is not in `denied`.
pub open spec fn allowed(denied: Set<Seq<char>>) -> spec_fn(Seq<char>) -> bool {
    |t: Seq<char>| !denied.contains(t)
}

/// The tokens of `tokens` that are not in `denied`, in the order of the input.
pub open spec fn filter_tokens(denied: Set<Seq<char>>, tokens: Seq<Seq<char>>) -> Seq<Seq<char>> {
    tokens.filter(allowed(denied))
}

/// Drops denied tokens from token streams. Tokens are compared verbatim.
pub struct Interceptor {
    disallowed: StringHashSet,
}

impl View for Interceptor {
    type V = Set<Seq<char>>;

    closed spec fn view(&self) -> Set<Seq<char>> {
        self.disallowed@
    }
}

impl Interceptor {
    /// An interceptor that denies exactly the given words.
    pub fn new(disallowed: &[&str]) -> (interceptor: Self)
        ensures
            interceptor@ == denylist_of(disallowed@),
            disallowed@.len() == 0 ==> interceptor@ == Set::<Seq<char>>::empty(),
    {
        let mut set = StringHashSet::new();
        let n: usize = disallowed.len();
        let mut i: usize = 0;
        while i < n
            invariant
                n == disallowed@.len(),
                i <= n,
                set@ == denylist_of(disallowed@.take(i as int)),
            decreases n - i,
        {
            let word: &str = disallowed[i];
            set.insert(word.to_owned());
            proof {
                let done = disallowed@.take(i as int).map_values(|w: &str| w@);
                let next = disallowed@.take(i + 1).map_values(|w: &str| w@);
                assert(next =~= done.push(word@));
                done.lemma_push_to_set_commute(word@);
            }
            i = i + 1;
        }
        assert(disallowed@.take(n as int) =~= disallowed@);
        Self { disallowed: set }
    }

    /// Filter a token stream, removing any token that is not allowed by policy.
    pub fn filter(&self, stream: TokenStream<'_>) -> (kept: Vec<String>)
        ensures
            token_texts(kept@) == filter_tokens(self@, token_texts(stream.tokens@)),
            self@ == Set::<Seq<char>>::empty() ==> token_texts(kept@) == token_texts(stream.tokens@),
    {
        let tokens: &[String] = stream.tokens;
        let ghost texts = token_texts(tokens@);
        let mut kept: Vec<String> = Vec::new();
        let n: usize = tokens.len();
        let mut i: usize = 0;
        proof {
            reveal_with_fuel(Seq::filter, 1);
        }
        while i < n
            invariant
                n == tokens@.len(),
                i <= n,
                texts == token_texts(tokens@),
                token_texts(kept@) == filter_tokens(self@, texts.take(i as int)),
            decreases n - i,
        {
            let token: &String = &tokens[i];
            if !self.disallowed.contains(token.as_str()) {
                kept.push(token.clone());
            }
            proof {
                let next = texts.take(i + 1);
                assert(next.drop_last() =~= texts.take(i as int));
                reveal_with_fuel(Seq::filter, 2);
            }
            i = i + 1;
        }
        proof {
            assert(texts.take(n as int) =~= texts);
            lemma_filter_identity(texts);
        }
        kept
    }
}

/// `kept` lies in `tokens` in order: `at` gives every kept token a position
/// in `tokens`, and later tokens get later positions.
pub open spec fn embeds_in_order(kept: Seq<Seq<char>>, tokens: Seq<Seq<char>>, at: Seq<int>) -> bool {
    &&& at.len() == kept.len()
    &&& forall|j: int| 0 <= j < kept.len() ==> 0 <= #[trigger] at[j] < tokens.len() && tokens[at[j]] == kept[j]
    &&& forall|j: int, k: int| 0 <= j < k < kept.len() ==> #[trigger] at[j] < #[trigger] at[k]
}

/// Filter identity: with an empty denylist every token stream passes unchanged.
pub proof fn lemma_filter_identity(tokens: Seq<Seq<char>>)
    ensures
        filter_tokens(Set::empty(), tokens) == tokens,
    decreases tokens.len(),
{
    reveal_with_fuel(Seq::filter, 1);
    if tokens.len() > 0 {
        lemma_filter_identity(tokens.drop_last());
    }
}

/// Filter subset: every kept token is a token of the input and is not denied,
/// every token of the input that is not denied is kept, and the kept tokens
/// stand in the order they had in the input.
pub proof fn lemma_filter_subset(denied: Set<Seq<char>>, tokens: Seq<Seq<char>>)
    ensures
        forall|j: int|
            0 <= j < filter_tokens(denied, tokens).len() ==> tokens.contains(
                #[trigger] filter_tokens(denied, tokens)[j],
            ) && !denied.contains(filter_tokens(denied, tokens)[j]),
        forall|i: int|
            0 <= i < tokens.len() && !denied.contains(#[trigger] tokens[i]) ==> filter_tokens(
                denied,
                tokens,
            ).contains(tokens[i]),
        exists|at: Seq<int>| embeds_in_order(filter_tokens(denied, tokens), tokens, at),
    decreases tokens.len(),
{
    reveal_with_fuel(Seq::filter, 1);
    let kept = filter_tokens(denied, tokens);
    if tokens.len() == 0 {
        assert(embeds_in_order(kept, tokens, Seq::<int>::empty()));
    } else {
        let earlier = tokens.drop_last();
        let last = tokens.last();
        let kept_earlier = filter_tokens(denied, earlier);
        lemma_filter_subset(denied, earlier);
        let at_earlier = choose|at: Seq<int>| embeds_in_order(kept_earlier, earlier, at);
        let at = if denied.contains(last) {
            at_earlier
        } else {
            at_earlier.push(tokens.len() - 1)
        };
        assert forall|j: int| 0 <= j < kept.len() implies tokens.contains(#[trigger] kept[j])
            && !denied.contains(kept[j]) by {
            if j < kept_earlier.len() {
                assert(earlier.contains(kept_earlier[j]));
                let i = choose|i: int| 0 <= i < earlier.len() && earlier[i] == kept_earlier[j];
                assert(tokens[i] == kept[j]);
            } else {
                assert(tokens[tokens.len() - 1] == kept[j]);
            }
        }
        assert forall|i: int| 0 <= i < tokens.len() && !denied.contains(
            #[trigger] tokens[i],
        ) implies kept.contains(tokens[i]) by {
            if i < earlier.len() {
                assert(earlier[i] == tokens[i]);
                assert(kept_earlier.contains(earlier[i]));
                let j = choose|j: int| 0 <= j < kept_earlier.len() && kept_earlier[j] == earlier[i];
                assert(kept[j] == tokens[i]);
            } else {
                assert(kept[kept.len() - 1] == tokens[i]);
            }
        }
        assert(embeds_in_order(kept, tokens, at)) by {
            assert forall|j: int| 0 <= j < kept.len() implies 0 <= #[trigger] at[j] < tokens.len()
                && tokens[at[j]] == kept[j] by {
                if j < kept_earlier.len() {
                    assert(at[j] == at_earlier[j]);
                    assert(earlier[at_earlier[j]] == kept_earlier[j]);
                }
            }
            assert forall|j: int, k: int| 0 <= j < k < kept.len() implies #[trigger] at[j]
                < #[trigger] at[k] by {
                assert(at[j] == at_earlier[j]);
                if k < kept_earlier.len() {
                    assert(at[k] == at_earlier[k]);
                } else {
                    assert(0 <= at_earlier[j] < earlier.len());
                }
            }
        }
    }
}

} // verus!
