//! A pair label with a size, and the lookup that swaps the `quote/base`
//! label for the exchange-assigned instrument key.

use vstd::prelude::*;

use crate::table::{first_key_index, lemma_first_key_index};

verus! {

/// A pair label and a size in `10^-8` units.
#[derive(Clone, Debug)]
pub struct Pair {
    pub name: String,
    pub size: u64,
}

impl Pair {
    /// The same pair with its label swapped for the instrument key the
    /// listing assigns it; a label the listing lacks becomes the empty
    /// string, the lookup's default.
    pub fn convert_to_name(&self, pair_to_name_map: &Vec<(String, String)>) -> (r: Pair)
        ensures
            r.size == self.size,
            ({
                let i = first_key_index(pair_to_name_map@, self.name@);
                if i >= 0 {
                    r.name@ == pair_to_name_map@[i].1@
                } else {
                    r.name@ == Seq::<char>::empty()
                }
            }),
    {
        proof {
            lemma_first_key_index(pair_to_name_map@, self.name@);
        }
        let n = pair_to_name_map.len();
        let mut i: usize = 0;
        while i < n
            invariant
                i <= n == pair_to_name_map@.len(),
                forall|j: int| 0 <= j < i ==> (#[trigger] pair_to_name_map@[j]).0@
                    != self.name@,
                first_key_index(pair_to_name_map@, self.name@) >= 0 ==> first_key_index(
                    pair_to_name_map@,
                    self.name@,
                ) < pair_to_name_map@.len() && pair_to_name_map@[first_key_index(
                    pair_to_name_map@,
                    self.name@,
                )].0@ == self.name@,
                first_key_index(pair_to_name_map@, self.name@) >= 0 ==> forall|j: int|
                    0 <= j < first_key_index(pair_to_name_map@, self.name@) ==> (
                #[trigger] pair_to_name_map@[j]).0@ != self.name@,
                first_key_index(pair_to_name_map@, self.name@) < 0 ==> forall|j: int|
                    0 <= j < pair_to_name_map@.len() ==> (#[trigger] pair_to_name_map@[j]).0@
                    != self.name@,
            decreases n - i,
        {
            if pair_to_name_map[i].0 == self.name {
                proof {
                    let f = first_key_index(pair_to_name_map@, self.name@);
                    if f != i as int {
                        if f < 0 || f > i as int {
                            assert(pair_to_name_map@[i as int].0@ == self.name@);
                        } else {
                            assert(pair_to_name_map@[f].0@ != self.name@);
                        }
                    }
                }
                return Pair { name: pair_to_name_map[i].1.clone(), size: self.size };
            }
            i = i + 1;
        }
        Pair { name: String::new(), size: self.size }
    }
}

} // verus!
