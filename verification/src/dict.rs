use vstd::prelude::*;
use crate::world::LENGTH;

verus! {

/// The immutable word list: every stored word has exactly `LENGTH` characters.
/// It validates submitted guesses and supplies random secret words.
pub struct Dictionary {
    words: Vec<String>,
}

/// Relies on rand's `Rng::gen_range` on `0..n`: it returns a uniformly
/// distributed value of the range, and panics only when the range is empty.
#[verifier::external_body]
fn random_index(n: usize) -> (r: usize)
    requires
        n > 0,
    ensures
        r < n,
{
    let mut rng = rand::thread_rng();
    rand::Rng::gen_range(&mut rng, 0..n)
}

impl View for Dictionary {
    type V = Seq<Seq<char>>;

    closed spec fn view(&self) -> Seq<Seq<char>> {
        views_of(self.words@)
    }
}

/// The views of a word list's entries, in order.
pub open spec fn views_of(words: Seq<String>) -> Seq<Seq<char>> {
    words.map_values(|w: String| w@)
}

/// Whether a word has exactly `LENGTH` characters.
pub open spec fn full_length(w: Seq<char>) -> bool {
    w.len() == LENGTH
}

/// The words of `LENGTH` characters among `ws`, in order.
pub open spec fn full_length_filter(ws: Seq<Seq<char>>) -> Seq<Seq<char>> {
    ws.filter(|w: Seq<char>| full_length(w))
}

/// Filtering a sequence extended by one word keeps the word exactly when it
/// has `LENGTH` characters.
proof fn lemma_full_length_filter_push(s: Seq<Seq<char>>, x: Seq<char>)
    ensures
        full_length_filter(s.push(x)) == if full_length(x) {
            full_length_filter(s).push(x)
        } else {
            full_length_filter(s)
        },
{
    reveal(Seq::filter);
    assert(s.push(x).drop_last() =~= s);
    assert(s.push(x).last() == x);
}

impl Dictionary {
    /// Every word of the dictionary has exactly `LENGTH` characters.
    pub open spec fn wf(&self) -> bool {
        forall|i: int| 0 <= i < self@.len() ==> (#[trigger] self@[i]).len() == LENGTH
    }

    /// Whether `w` is one of the dictionary's words.
    pub open spec fn contains_word(&self, w: Seq<char>) -> bool {
        exists|i: int| 0 <= i < self@.len() && self@[i] == w
    }

    /// Builds a dictionary from a word list, keeping exactly the entries of
    /// `LENGTH` characters, in their given order.
    pub fn new(words: Vec<String>) -> (d: Dictionary)
        ensures
            d.wf(),
            d@ == full_length_filter(views_of(words@)),
            forall|w: Seq<char>| #[trigger] d.contains_word(w) <==> (w.len() == LENGTH
                && exists|i: int| 0 <= i < words@.len() && words@[i]@ == w),
    {
        let mut kept: Vec<String> = Vec::new();
        let mut i: usize = 0;
        while i < words.len()
            invariant
                i <= words@.len(),
                forall|j: int| 0 <= j < kept@.len() ==> (#[trigger] kept@[j])@.len() == LENGTH,
                forall|j: int| 0 <= j < kept@.len()
                    ==> exists|k: int| 0 <= k < i && words@[k]@ == (#[trigger] kept@[j])@,
                forall|k: int| 0 <= k < i && (#[trigger] words@[k])@.len() == LENGTH
                    ==> exists|j: int| 0 <= j < kept@.len() && kept@[j]@ == words@[k]@,
                views_of(kept@) == full_length_filter(views_of(words@.subrange(0, i as int))),
            decreases words@.len() - i,
        {
            let w = &words[i];
            let ghost kept_pre = kept@;
            let keep = w.as_str().unicode_len() == LENGTH;
            if keep {
                kept.push(w.clone());
            }
            proof {
                assert(views_of(words@.subrange(0, i + 1))
                    =~= views_of(words@.subrange(0, i as int)).push(words@[i as int]@));
                lemma_full_length_filter_push(
                    views_of(words@.subrange(0, i as int)),
                    words@[i as int]@,
                );
                if keep {
                    assert(views_of(kept@) =~= views_of(kept_pre).push(words@[i as int]@));
                } else {
                    assert(views_of(kept@) == views_of(kept_pre));
                }
                if keep {
                    assert(kept@ == kept_pre.push(words@[i as int]));
                    assert forall|j: int| 0 <= j < kept@.len() implies
                        exists|k: int| 0 <= k < i + 1 && words@[k]@ == (#[trigger] kept@[j])@ by {
                        if j < kept_pre.len() {
                            assert(kept@[j] == kept_pre[j]);
                            let k = choose|k: int| 0 <= k < i && words@[k]@ == kept_pre[j]@;
                            assert(0 <= k < i + 1 && words@[k]@ == kept@[j]@);
                        } else {
                            assert(kept@[j] == words@[i as int]);
                            assert(words@[i as int]@ == kept@[j]@);
                        }
                    }
                    assert forall|k: int|
                        0 <= k < i + 1 && (#[trigger] words@[k])@.len() == LENGTH implies
                        exists|j: int| 0 <= j < kept@.len() && kept@[j]@ == words@[k]@ by {
                        if k < i {
                            let j = choose|j: int|
                                0 <= j < kept_pre.len() && kept_pre[j]@ == words@[k]@;
                            assert(kept@[j]@ == words@[k]@);
                        } else {
                            assert(kept@[kept@.len() - 1]@ == words@[k]@);
                        }
                    }
                } else {
                    assert forall|k: int|
                        0 <= k < i + 1 && (#[trigger] words@[k])@.len() == LENGTH implies
                        exists|j: int| 0 <= j < kept@.len() && kept@[j]@ == words@[k]@ by {
                        assert(k < i);
                        let j = choose|j: int|
                            0 <= j < kept@.len() && kept@[j]@ == words@[k]@;
                    }
                }
            }
            i += 1;
        }
        let d = Dictionary { words: kept };
        proof {
            assert(words@.subrange(0, words@.len() as int) =~= words@);
            assert(forall|j: int| 0 <= j < d@.len() ==> d@[j] == (#[trigger] d.words@[j])@);
            assert forall|w: Seq<char>| #[trigger] d.contains_word(w) implies (w.len() == LENGTH
                && exists|i2: int| 0 <= i2 < words@.len() && words@[i2]@ == w) by {
                let j = choose|j: int| 0 <= j < d@.len() && d@[j] == w;
                assert(d.words@[j]@ == w);
            }
            assert forall|w: Seq<char>| (w.len() == LENGTH
                && exists|i2: int| 0 <= i2 < words@.len() && words@[i2]@ == w)
                implies #[trigger] d.contains_word(w) by {
                let k = choose|k: int| 0 <= k < words@.len() && words@[k]@ == w;
                let j = choose|j: int| 0 <= j < d.words@.len() && d.words@[j]@ == words@[k]@;
                assert(d@[j] == w);
            }
        }
        d
    }

    /// How many words the dictionary holds.
    pub fn len(&self) -> (n: usize)
        ensures
            n == self@.len(),
    {
        self.words.len()
    }

    /// Whether the candidate word is in the dictionary.
    pub fn contains(&self, w: &String) -> (r: bool)
        ensures
            r == self.contains_word(w@),
    {
        let mut i: usize = 0;
        while i < self.words.len()
            invariant
                i <= self.words@.len(),
                forall|j: int| 0 <= j < i ==> (#[trigger] self.words@[j])@ != w@,
            decreases self.words@.len() - i,
        {
            if self.words[i].eq(w) {
                proof {
                    assert(self@[i as int] == self.words@[i as int]@);
                }
                return true;
            }
            i += 1;
        }
        assert forall|j: int| 0 <= j < self@.len() implies #[trigger] self@[j] != w@ by {
            assert(self@[j] == self.words@[j]@);
        }
        false
    }

    /// Draws a word from the dictionary with a uniform random index.
    pub fn random_word(&self) -> (r: String)
        requires
            self.wf(),
            self@.len() > 0,
        ensures
            r@.len() == LENGTH,
            self.contains_word(r@),
    {
        let i = random_index(self.words.len());
        let w = self.words[i].clone();
        proof {
            assert(self@[i as int] == self.words@[i as int]@);
            assert(self@[i as int] == w@);
        }
        w
    }
}

} // verus!
