//! Runtime values and the variable environment: a name-to-value store with
//! declare-once / assign-if-exists semantics, modelled as a map from names to
//! values.

use vstd::prelude::*;

use crate::error::{NumerusError, SpecNumerusError};
use crate::roman::{spec_to_roman, to_roman};
use crate::text::str_eq;

verus! {

/// Mathematical model of a runtime value.
pub enum SpecValue {
    Num(int),
    Str(Seq<char>),
}

/// Runtime value: a number or a string.
#[derive(Debug, Clone, PartialEq)]
pub enum Value {
    Number(i32),
    String(String),
}

impl View for Value {
    type V = SpecValue;

    open spec fn view(&self) -> SpecValue {
        match self {
            Value::Number(n) => SpecValue::Num(*n as int),
            Value::String(s) => SpecValue::Str(s@),
        }
    }
}

/// What `to_output_string` produces: strings pass through; numbers must lie
/// in the Roman-representable range `1..=3999` and are rendered canonically.
pub open spec fn spec_output_string(v: SpecValue) -> Result<Seq<char>, SpecNumerusError> {
    match v {
        SpecValue::Str(s) => Ok(s),
        SpecValue::Num(n) => if n <= 0 {
            Err(SpecNumerusError::NegativeRomanConversion { value: n })
        } else if n > 3999 {
            Err(SpecNumerusError::RomanOverflow { value: n })
        } else {
            Ok(spec_to_roman(n))
        },
    }
}

impl Value {
    /// Convert the value to its printed form: numbers are rendered as
    /// canonical Roman numerals and must lie in `1..=3999`.
    pub fn to_output_string(&self) -> (r: Result<String, NumerusError>)
        ensures
            r matches Ok(s) ==> spec_output_string(self@) == Ok::<Seq<char>, SpecNumerusError>(s@),
            r matches Err(e) ==> spec_output_string(self@) == Err::<Seq<char>, SpecNumerusError>(
                e@,
            ),
    {
        match self {
            Value::String(s) => Ok(s.clone()),
            Value::Number(n) => {
                if *n <= 0 {
                    return Err(NumerusError::NegativeRomanConversion { value: *n });
                }
                if *n > 3999 {
                    return Err(NumerusError::RomanOverflow { value: *n });
                }
                match to_roman(*n) {
                    Ok(s) => Ok(s),
                    Err(_) => {
                        proof {
                            assert(false);
                        }
                        Err(NumerusError::RomanOverflow { value: *n })
                    },
                }
            },
        }
    }

    /// Check if this is a number.
    pub fn is_number(&self) -> (r: bool)
        ensures
            r == (self@ is Num),
    {
        match self {
            Value::Number(_) => true,
            _ => false,
        }
    }

    /// Check if this is a string.
    pub fn is_string(&self) -> (r: bool)
        ensures
            r == (self@ is Str),
    {
        match self {
            Value::String(_) => true,
            _ => false,
        }
    }

    /// Get as number, if it is one.
    pub fn as_number(&self) -> (r: Option<i32>)
        ensures
            r matches Some(n) ==> self@ == SpecValue::Num(n as int),
            r is None ==> self@ is Str,
    {
        match self {
            Value::Number(n) => Some(*n),
            _ => None,
        }
    }

    /// Get as string, if it is one.
    pub fn as_string(&self) -> (r: Option<&str>)
        ensures
            r matches Some(s) ==> self@ == SpecValue::Str(s@),
            r is None ==> self@ is Num,
    {
        match self {
            Value::String(s) => Some(s.as_str()),
            _ => None,
        }
    }

    /// An exact copy of the value.
    pub fn duplicate(&self) -> (r: Value)
        ensures
            r@ == self@,
    {
        match self {
            Value::Number(n) => Value::Number(*n),
            Value::String(s) => Value::String(s.clone()),
        }
    }
}

/// The map described by a list of (name, value) entries, later entries taking
/// precedence.
pub open spec fn entries_map(s: Seq<(String, Value)>) -> Map<Seq<char>, SpecValue>
    decreases s.len(),
{
    if s.len() == 0 {
        Map::empty()
    } else {
        entries_map(s.drop_last()).insert(s.last().0@, s.last().1@)
    }
}

/// No two entries share a name.
pub open spec fn unique_keys(s: Seq<(String, Value)>) -> bool {
    forall|i: int, j: int| 0 <= i < j < s.len() ==> s[i].0@ != s[j].0@
}

proof fn lemma_entries_contains(s: Seq<(String, Value)>, k: Seq<char>)
    ensures
        entries_map(s).contains_key(k) <==> exists|i: int| 0 <= i < s.len() && s[i].0@ == k,
    decreases s.len(),
{
    if s.len() > 0 {
        let t = s.drop_last();
        lemma_entries_contains(t, k);
        if s.last().0@ == k {
            assert(s[s.len() - 1].0@ == k);
        } else {
            if entries_map(s).contains_key(k) {
                let i = choose|i: int| 0 <= i < t.len() && t[i].0@ == k;
                assert(s[i].0@ == k);
            }
            if exists|i: int| 0 <= i < s.len() && s[i].0@ == k {
                let i = choose|i: int| 0 <= i < s.len() && s[i].0@ == k;
                assert(t[i].0@ == k);
            }
        }
    }
}

proof fn lemma_entries_lookup(s: Seq<(String, Value)>, i: int)
    requires
        0 <= i < s.len(),
        unique_keys(s),
    ensures
        entries_map(s).contains_key(s[i].0@),
        entries_map(s)[s[i].0@] == s[i].1@,
    decreases s.len(),
{
    if i == s.len() - 1 {
    } else {
        let t = s.drop_last();
        assert(unique_keys(t));
        lemma_entries_lookup(t, i);
        assert(s.last().0@ != s[i].0@);
    }
}

proof fn lemma_entries_update(s: Seq<(String, Value)>, i: int, e: (String, Value))
    requires
        0 <= i < s.len(),
        unique_keys(s),
        e.0@ == s[i].0@,
    ensures
        entries_map(s.update(i, e)) == entries_map(s).insert(e.0@, e.1@),
    decreases s.len(),
{
    let t = s.drop_last();
    let u = s.update(i, e);
    if i == s.len() - 1 {
        assert(u.drop_last() =~= t);
        assert(u.last() == e);
        assert(entries_map(s).insert(e.0@, e.1@) =~= entries_map(t).insert(e.0@, e.1@));
    } else {
        assert(unique_keys(t));
        lemma_entries_update(t, i, e);
        assert(u.drop_last() =~= t.update(i, e));
        assert(u.last() == s.last());
        assert(s.last().0@ != e.0@);
        assert(entries_map(t).insert(e.0@, e.1@).insert(s.last().0@, s.last().1@) =~= entries_map(
            t,
        ).insert(s.last().0@, s.last().1@).insert(e.0@, e.1@));
    }
}

/// Symbol table for variable storage: a mapping from variable names to
/// values, keyed only by name.
#[derive(Debug)]
pub struct Environment {
    entries: Vec<(String, Value)>,
}

impl View for Environment {
    type V = Map<Seq<char>, SpecValue>;

    closed spec fn view(&self) -> Map<Seq<char>, SpecValue> {
        entries_map(self.entries@)
    }
}

impl Environment {
    #[verifier::type_invariant]
    spec fn wf(&self) -> bool {
        unique_keys(self.entries@)
    }

    /// A fresh environment with no variables.
    pub fn new() -> (r: Environment)
        ensures
            r@ == Map::<Seq<char>, SpecValue>::empty(),
    {
        Environment { entries: Vec::new() }
    }

    /// The index of the entry for `name`, if there is one.
    fn find(&self, name: &str) -> (r: Option<usize>)
        ensures
            r matches Some(i) ==> i < self.entries@.len() && self.entries@[i as int].0@ == name@,
            r is None ==> forall|i: int| 0 <= i < self.entries@.len() ==> self.entries@[i].0@
                != name@,
    {
        let n = self.entries.len();
        let mut i: usize = 0;
        while i < n
            invariant
                n == self.entries@.len(),
                i <= n,
                forall|k: int| 0 <= k < i ==> self.entries@[k].0@ != name@,
            decreases n - i,
        {
            if str_eq(self.entries[i].0.as_str(), name) {
                return Some(i);
            }
            i = i + 1;
        }
        None
    }

    /// Declare a new variable; fails, leaving the environment unchanged, when
    /// the name is already declared.
    pub fn declare(&mut self, name: String, value: Value) -> (r: Result<(), NumerusError>)
        ensures
            old(self)@.contains_key(name@) ==> (r matches Err(e) && e@
                == (SpecNumerusError::VariableAlreadyDeclared { name: name@ }) && final(self)@
                == old(self)@),
            !old(self)@.contains_key(name@) ==> r is Ok && final(self)@ == old(self)@.insert(
                name@,
                value@,
            ),
    {
        proof {
            use_type_invariant(&*self);
            lemma_entries_contains(self.entries@, name@);
        }
        match self.find(name.as_str()) {
            Some(_) => Err(NumerusError::VariableAlreadyDeclared { name }),
            None => {
                let ghost olds = self.entries@;
                let mut entries: Vec<(String, Value)> = Vec::new();
                core::mem::swap(&mut entries, &mut self.entries);
                entries.push((name, value));
                proof {
                    assert forall|a: int, b: int|
                        0 <= a < b < entries@.len() implies entries@[a].0@ != entries@[b].0@ by {
                        if b == entries@.len() - 1 {
                            assert(entries@[a] == olds[a]);
                        } else {
                            assert(olds[a].0@ != olds[b].0@);
                        }
                    }
                }
                core::mem::swap(&mut entries, &mut self.entries);
                proof {
                    assert(self.entries@.drop_last() =~= olds);
                }
                Ok(())
            },
        }
    }

    /// Assign to an existing variable; fails, leaving the environment
    /// unchanged, when the name was never declared.
    pub fn assign(&mut self, name: &str, value: Value) -> (r: Result<(), NumerusError>)
        ensures
            !old(self)@.contains_key(name@) ==> (r matches Err(e) && e@
                == (SpecNumerusError::UndefinedVariable { name: name@ }) && final(self)@ == old(
                self,
            )@),
            old(self)@.contains_key(name@) ==> r is Ok && final(self)@ == old(self)@.insert(
                name@,
                value@,
            ),
    {
        proof {
            use_type_invariant(&*self);
            lemma_entries_contains(self.entries@, name@);
        }
        match self.find(name) {
            None => Err(NumerusError::UndefinedVariable { name: name.to_owned() }),
            Some(i) => {
                let ghost olds = self.entries@;
                let mut entries: Vec<(String, Value)> = Vec::new();
                core::mem::swap(&mut entries, &mut self.entries);
                entries[i] = (name.to_owned(), value);
                proof {
                    assert(entries@ == olds.update(i as int, entries@[i as int]));
                    lemma_entries_update(olds, i as int, entries@[i as int]);
                    assert forall|a: int, b: int|
                        0 <= a < b < entries@.len() implies entries@[a].0@ != entries@[b].0@ by {
                        assert(olds[a].0@ != olds[b].0@);
                    }
                }
                core::mem::swap(&mut entries, &mut self.entries);
                Ok(())
            },
        }
    }

    /// Get a variable's value; fails when the name was never declared.
    pub fn get(&self, name: &str) -> (r: Result<Value, NumerusError>)
        ensures
            self@.contains_key(name@) ==> (r matches Ok(v) && v@ == self@[name@]),
            !self@.contains_key(name@) ==> (r matches Err(e) && e@
                == (SpecNumerusError::UndefinedVariable { name: name@ })),
    {
        proof {
            use_type_invariant(self);
            lemma_entries_contains(self.entries@, name@);
        }
        match self.find(name) {
            Some(i) => {
                proof {
                    lemma_entries_lookup(self.entries@, i as int);
                }
                Ok(self.entries[i].1.duplicate())
            },
            None => Err(NumerusError::UndefinedVariable { name: name.to_owned() }),
        }
    }

    /// Check if a variable exists.
    pub fn contains(&self, name: &str) -> (r: bool)
        ensures
            r == self@.contains_key(name@),
    {
        proof {
            lemma_entries_contains(self.entries@, name@);
        }
        match self.find(name) {
            Some(_) => true,
            None => false,
        }
    }

    /// All variables, as (name, value) pairs: each pair is a binding of the
    /// environment and every binding appears exactly once.
    pub fn variables(&self) -> (r: Vec<(String, Value)>)
        ensures
            forall|i: int|
                0 <= i < r@.len() ==> self@.contains_key(#[trigger] r@[i].0@) && self@[r@[i].0@]
                    == r@[i].1@,
            forall|k: Seq<char>|
                self@.contains_key(k) ==> exists|i: int| 0 <= i < r@.len() && #[trigger] r@[i].0@
                    == k,
            forall|i: int, j: int| 0 <= i < j < r@.len() ==> r@[i].0@ != r@[j].0@,
    {
        proof {
            use_type_invariant(self);
        }
        let n = self.entries.len();
        let mut r: Vec<(String, Value)> = Vec::new();
        let mut i: usize = 0;
        while i < n
            invariant
                n == self.entries@.len(),
                unique_keys(self.entries@),
                entries_map(self.entries@) == self@,
                i <= n,
                r@.len() == i,
                forall|k: int| 0 <= k < i ==> #[trigger] r@[k].0@ == self.entries@[k].0@ && r@[k].1@
                    == self.entries@[k].1@,
            decreases n - i,
        {
            let name = self.entries[i].0.clone();
            let value = self.entries[i].1.duplicate();
            r.push((name, value));
            i = i + 1;
        }
        proof {
            assert forall|i: int|
                0 <= i < r@.len() implies self@.contains_key(#[trigger] r@[i].0@) && self@[r@[i].0@]
                == r@[i].1@ by {
                lemma_entries_lookup(self.entries@, i);
            }
            assert forall|k: Seq<char>| self@.contains_key(k) implies exists|i: int|
                0 <= i < r@.len() && #[trigger] r@[i].0@ == k by {
                lemma_entries_contains(self.entries@, k);
                let i = choose|i: int| 0 <= i < self.entries@.len() && self.entries@[i].0@ == k;
                assert(r@[i].0@ == k);
            }
        }
        r
    }
}

} // verus!
