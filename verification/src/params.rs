//! Property parameters: a mapping from parameter name to one or more string
//! values, in insertion order.
//!
//! The jCard encoding of a parameter entry depends on how many values it has:
//! a single value is written as a bare JSON string, several values as a JSON
//! array of strings.  An entry with no values cannot be encoded at all; the
//! codec reports it as an error rather than ever writing one.

use vstd::prelude::*;

verus! {

broadcast use vstd::std_specs::vec::group_vec_axioms, vstd::seq::group_seq_axioms;

/// The mathematical shape of [`Parameters`]: the entries in order, each a
/// name together with its values.
pub type ParamsModel = Seq<(Seq<char>, Seq<Seq<char>>)>;

/// The parameters of a property, such as a language or a preference value.
///
/// Entries are kept in insertion order and names are not repeated:
/// [`Parameters::insert`] replaces the values of a name that is already
/// present.
#[derive(Debug, Clone, PartialEq)]
pub struct Parameters {
    /// The entries, in insertion order.
    pub entries: Vec<(String, Vec<String>)>,
}

impl View for Parameters {
    type V = ParamsModel;

    open spec fn view(&self) -> ParamsModel {
        self.entries.deep_view()
    }
}

impl DeepView for Parameters {
    type V = ParamsModel;

    open spec fn deep_view(&self) -> ParamsModel {
        self.view()
    }
}

/// The model of an optional parameter map, where absence stands for the
/// empty map.
pub open spec fn opt_params_model(p: Option<Parameters>) -> ParamsModel {
    match p {
        Some(q) => q@,
        None => Seq::empty(),
    }
}

/// The position of the first entry named `key` at or after position `i`.
pub open spec fn first_key_index_from(s: ParamsModel, key: Seq<char>, i: int) -> Option<int>
    decreases s.len() - i,
{
    if i < 0 || i >= s.len() {
        None
    } else if s[i].0 == key {
        Some(i)
    } else {
        first_key_index_from(s, key, i + 1)
    }
}

/// What [`Parameters::insert`] does: replace the values of the first entry
/// named `key`, or append a new entry if the name is not present.
pub open spec fn params_upsert(s: ParamsModel, key: Seq<char>, values: Seq<Seq<char>>) -> ParamsModel {
    match first_key_index_from(s, key, 0) {
        Some(i) => s.update(i, (key, values)),
        None => s.push((key, values)),
    }
}

/// Scanning for `key` skips every position known not to match.
proof fn lemma_first_key_index_skip(s: ParamsModel, key: Seq<char>, i: int, j: int)
    requires
        0 <= i <= j <= s.len(),
        forall|k: int| i <= k < j ==> s[k].0 != key,
    ensures
        first_key_index_from(s, key, i) == first_key_index_from(s, key, j),
    decreases j - i,
{
    if i < j {
        lemma_first_key_index_skip(s, key, i + 1, j);
    }
}

impl Parameters {
    /// An empty parameter map.
    pub fn new() -> (p: Parameters)
        ensures
            p@ == Seq::<(Seq<char>, Seq<Seq<char>>)>::empty(),
    {
        let entries: Vec<(String, Vec<String>)> = Vec::new();
        proof {
            assert(entries.deep_view() =~= Seq::<(Seq<char>, Seq<Seq<char>>)>::empty());
        }
        Parameters { entries }
    }

    /// How many parameter names are present.
    pub fn len(&self) -> (n: usize)
        ensures
            n == self@.len(),
    {
        self.entries.len()
    }

    /// Sets the values of `key`, replacing the values it already has or
    /// appending a new entry.
    pub fn insert(&mut self, key: String, values: Vec<String>)
        ensures
            final(self)@ == params_upsert(old(self)@, key@, values.deep_view()),
    {
        let ghost orig = self@;
        let n = self.entries.len();
        let mut i: usize = 0;
        while i < n
            invariant
                n == self.entries.len(),
                0 <= i <= n,
                *self == *old(self),
                orig == self@,
                orig.len() == n,
                forall|k: int| 0 <= k < i ==> self@[k].0 != key@,
            decreases n - i,
        {
            if self.entries[i].0 == key {
                proof {
                    lemma_first_key_index_skip(orig, key@, 0, i as int);
                    assert(first_key_index_from(orig, key@, i as int) == Some(i as int));
                }
                self.entries[i] = (key, values);
                proof {
                    assert(self@ =~= orig.update(i as int, (key@, values.deep_view())));
                }
                return ;
            }
            i = i + 1;
        }
        proof {
            lemma_first_key_index_skip(orig, key@, 0, n as int);
        }
        self.entries.push((key, values));
        proof {
            assert(self@ =~= orig.push((key@, values.deep_view())));
        }
    }
}

/// A one-or-many coercion helper: wraps a value that stands for a list of
/// parameter values, so that a single string and a list of strings can both
/// be turned into the list form that [`Parameters`] stores.
pub struct Veclike<T>(pub T);

impl Veclike<String> {
    /// A single value becomes a one-element list.
    pub fn to_vec(self) -> (v: Vec<String>)
        ensures
            v.deep_view() == seq![self.0@],
    {
        let r = vec![self.0];
        proof {
            assert(r.deep_view() =~= seq![r@[0]@]);
        }
        r
    }
}

impl Veclike<&str> {
    /// A single value becomes a one-element list.
    pub fn to_vec(self) -> (v: Vec<String>)
        ensures
            v.deep_view() == seq![self.0@],
    {
        let r = vec![self.0.to_owned()];
        proof {
            assert(r.deep_view() =~= seq![r@[0]@]);
        }
        r
    }
}

impl Veclike<Vec<String>> {
    /// A list of values stands for itself.
    pub fn to_vec(self) -> (v: Vec<String>)
        ensures
            v.deep_view() == self.0.deep_view(),
    {
        self.0
    }
}

} // verus!
