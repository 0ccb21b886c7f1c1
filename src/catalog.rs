//! The catalog: compiled UI XML keyed by normalized source path, built all
//! or nothing from the outcomes of a whole tree's compiles.
use vstd::prelude::*;
use crate::compiler::{CompileError, CompileOutcome};
use crate::codegen::{
    embed_literal, embedded_entries, phf_builder_code, phf_builder_entry, phf_builder_new,
    phf_entries, phf_map_code,
};
use crate::paths::{normalize_path, normalized};

verus! {

/// True when some entry has the key `key`.
pub open spec fn has_key(entries: Seq<(Seq<char>, Seq<char>)>, key: Seq<char>) -> bool {
    exists|i: int| 0 <= i < entries.len() && #[trigger] entries[i].0 == key
}

/// No two entries share a key.
pub open spec fn keys_distinct(entries: Seq<(Seq<char>, Seq<char>)>) -> bool {
    forall|i: int, j: int|
        0 <= i < entries.len() && 0 <= j < entries.len() && i != j ==> #[trigger] entries[i].0
            != #[trigger] entries[j].0
}

/// The text stored under `key`, if any.
pub open spec fn entry_text(entries: Seq<(Seq<char>, Seq<char>)>, key: Seq<char>) -> Option<
    Seq<char>,
> {
    if has_key(entries, key) {
        Some(entries[choose|i: int| 0 <= i < entries.len() && #[trigger] entries[i].0 == key].1)
    } else {
        None
    }
}

/// The entries made from the compiled results, in order, each under its
/// normalized path; a path whose key is already present adds nothing.
pub open spec fn compiled_entries(results: Seq<(String, CompileOutcome)>) -> Seq<
    (Seq<char>, Seq<char>),
>
    decreases results.len(),
{
    if results.len() == 0 {
        seq![]
    } else {
        let prev = compiled_entries(results.drop_last());
        let key = normalized(results.last().0@);
        match results.last().1 {
            CompileOutcome::Compiled(t) => if has_key(prev, key) {
                prev
            } else {
                prev.push((key, t@))
            },
            CompileOutcome::Failed(_) => prev,
        }
    }
}

/// The failed results, in order, each with its normalized path.
pub open spec fn failures_of(results: Seq<(String, CompileOutcome)>) -> Seq<
    (Seq<char>, CompileError),
>
    decreases results.len(),
{
    if results.len() == 0 {
        seq![]
    } else {
        let prev = failures_of(results.drop_last());
        match results.last().1 {
            CompileOutcome::Compiled(_) => prev,
            CompileOutcome::Failed(e) => prev.push((normalized(results.last().0@), e)),
        }
    }
}

/// Compiled UI XML keyed by normalized source path.
pub struct Catalog {
    entries: Vec<(String, String)>,
}

impl View for Catalog {
    type V = Seq<(Seq<char>, Seq<char>)>;

    closed spec fn view(&self) -> Seq<(Seq<char>, Seq<char>)> {
        self.entries@.map_values(|e: (String, String)| (e.0@, e.1@))
    }
}

/// A lookup of a key that the catalog does not hold.
pub struct KeyError {
    /// The normalized key that was asked for.
    pub key: String,
}

/// Every file that failed to compile, with its error.
pub struct AggregateCompileError {
    /// The normalized path and the error of each failed file, in order.
    pub failures: Vec<(String, CompileError)>,
}

impl AggregateCompileError {
    /// The failures as (normalized path, error) pairs.
    pub open spec fn failures_view(&self) -> Seq<(Seq<char>, CompileError)> {
        self.failures@.map_values(|f: (String, CompileError)| (f.0@, f.1))
    }
}

fn find_key(entries: &Vec<(String, String)>, key: &String) -> (r: Option<usize>)
    ensures
        match r {
            Some(i) => i < entries@.len() && entries@[i as int].0@ == key@,
            None => forall|i: int| 0 <= i < entries@.len() ==> #[trigger] entries@[i].0@ != key@,
        },
{
    let mut i: usize = 0;
    while i < entries.len()
        invariant
            i <= entries@.len(),
            forall|k: int| 0 <= k < i ==> #[trigger] entries@[k].0@ != key@,
        decreases entries.len() - i,
    {
        if entries[i].0 == *key {
            return Some(i);
        }
        i = i + 1;
    }
    None
}

impl Catalog {
    /// Entries have distinct keys.
    #[verifier::type_invariant]
    spec fn keys_unique(self) -> bool {
        keys_distinct(self@)
    }

    /// The number of entries.
    pub fn len(&self) -> (r: usize)
        ensures
            r == self@.len(),
    {
        self.entries.len()
    }

    /// The source of a `phf::Map` holding each entry's text as a raw string
    /// literal under its key.
    pub fn code(&self) -> (r: String)
        ensures
            r@ == phf_map_code(embedded_entries(self@)),
    {
        proof {
            use_type_invariant(self);
        }
        let mut m = phf_builder_new();
        let mut i: usize = 0;
        while i < self.entries.len()
            invariant
                i <= self.entries@.len(),
                keys_distinct(self@),
                phf_entries(m) == embedded_entries(self@).take(i as int),
            decreases self.entries.len() - i,
        {
            let literal = embed_literal(self.entries[i].1.as_str());
            let ghost before = phf_entries(m);
            phf_builder_entry(&mut m, self.entries[i].0.clone(), literal.as_str());
            assert(embedded_entries(self@).take(i + 1) =~= before.push(
                embedded_entries(self@)[i as int],
            ));
            i = i + 1;
        }
        assert(embedded_entries(self@).take(i as int) =~= embedded_entries(self@));
        phf_builder_code(&m)
    }

    /// Looks up the text compiled from `key`, after normalizing it as the
    /// keys were normalized.
    pub fn lookup(&self, key: &str) -> (r: Result<String, KeyError>)
        ensures
            match r {
                Ok(t) => entry_text(self@, normalized(key@)) == Some(t@),
                Err(e) => entry_text(self@, normalized(key@)) == None::<Seq<char>> && e.key@
                    == normalized(key@),
            },
    {
        proof {
            use_type_invariant(self);
        }
        let k = normalize_path(key);
        match find_key(&self.entries, &k) {
            Some(i) => {
                proof {
                    assert(self@[i as int].0 == k@);
                    let j = choose|j: int| 0 <= j < self@.len() && #[trigger] self@[j].0 == k@;
                    assert(j == i);
                }
                Ok(self.entries[i].1.clone())
            },
            None => {
                proof {
                    assert forall|i: int| 0 <= i < self@.len() implies #[trigger] self@[i].0 != k@ by {
                        assert(self@[i].0 == self.entries@[i].0@);
                    }
                }
                Err(KeyError { key: k })
            },
        }
    }
}

/// Builds the catalog from each source's path and compile outcome, in order.
/// Every failure is collected; when there is any, the result is the list of
/// all of them and no catalog.
pub fn generate_catalog(results: &Vec<(String, CompileOutcome)>) -> (r: Result<
    Catalog,
    AggregateCompileError,
>)
    ensures
        match r {
            Ok(c) => failures_of(results@).len() == 0 && c@ == compiled_entries(results@),
            Err(a) => failures_of(results@).len() > 0 && a.failures_view() == failures_of(
                results@,
            ),
        },
{
    let mut entries: Vec<(String, String)> = Vec::new();
    let mut failures: Vec<(String, CompileError)> = Vec::new();
    let mut i: usize = 0;
    while i < results.len()
        invariant
            i <= results@.len(),
            (Catalog { entries })@ == compiled_entries(results@.take(i as int)),
            keys_distinct((Catalog { entries })@),
            (AggregateCompileError { failures }).failures_view() == failures_of(
                results@.take(i as int),
            ),
        decreases results.len() - i,
    {
        assert(results@.take(i + 1).drop_last() =~= results@.take(i as int));
        let ghost prev = (Catalog { entries })@;
        let ghost prev_failures = (AggregateCompileError { failures }).failures_view();
        let key = normalize_path(results[i].0.as_str());
        match &results[i].1 {
            CompileOutcome::Compiled(t) => {
                match find_key(&entries, &key) {
                    Some(j) => {
                        assert(prev[j as int].0 == key@);
                    },
                    None => {
                        assert forall|j: int| 0 <= j < prev.len() implies #[trigger] prev[j].0
                            != key@ by {
                            assert(prev[j].0 == entries@[j].0@);
                        }
                        entries.push((key, t.clone()));
                        assert((Catalog { entries })@ =~= prev.push((key@, t@)));
                    },
                }
            },
            CompileOutcome::Failed(e) => {
                failures.push((key, e.duplicate()));
                assert((AggregateCompileError { failures }).failures_view() =~= prev_failures.push(
                    (key@, *e),
                ));
            },
        }
        i = i + 1;
    }
    assert(results@.take(i as int) =~= results@);
    if failures.len() > 0 {
        Err(AggregateCompileError { failures })
    } else {
        Ok(Catalog { entries })
    }
}

/// The compiled text of an outcome (empty for a failure).
pub open spec fn outcome_text(o: CompileOutcome) -> Seq<char> {
    match o {
        CompileOutcome::Compiled(t) => t@,
        CompileOutcome::Failed(_) => seq![],
    }
}

proof fn lemma_keys_come_from_results(results: Seq<(String, CompileOutcome)>)
    ensures
        forall|k: int|
            0 <= k < compiled_entries(results).len() ==> exists|j: int|
                0 <= j < results.len() && #[trigger] compiled_entries(results)[k].0 == normalized(
                    results[j].0@,
                ),
    decreases results.len(),
{
    if results.len() > 0 {
        let rest = results.drop_last();
        lemma_keys_come_from_results(rest);
        assert forall|k: int| 0 <= k < compiled_entries(results).len() implies exists|j: int|
            0 <= j < results.len() && #[trigger] compiled_entries(results)[k].0 == normalized(
                results[j].0@,
            ) by {
            if k < compiled_entries(rest).len() {
                let j = choose|j: int|
                    0 <= j < rest.len() && #[trigger] compiled_entries(rest)[k].0 == normalized(
                        rest[j].0@,
                    );
                assert(results[j] == rest[j]);
            } else {
                assert(compiled_entries(results)[k].0 == normalized(results[results.len() - 1].0@));
            }
        }
    }
}

proof fn lemma_compiled_keys_distinct(results: Seq<(String, CompileOutcome)>)
    ensures
        keys_distinct(compiled_entries(results)),
    decreases results.len(),
{
    if results.len() > 0 {
        lemma_compiled_keys_distinct(results.drop_last());
    }
}

proof fn lemma_compiled_prefix(results: Seq<(String, CompileOutcome)>, m: int)
    requires
        0 <= m <= results.len(),
    ensures
        compiled_entries(results.take(m)).len() <= compiled_entries(results).len(),
        forall|k: int|
            0 <= k < compiled_entries(results.take(m)).len() ==> #[trigger] compiled_entries(
                results.take(m),
            )[k] == compiled_entries(results)[k],
    decreases results.len(),
{
    if m < results.len() {
        let rest = results.drop_last();
        lemma_compiled_prefix(rest, m);
        assert(rest.take(m) =~= results.take(m));
    } else {
        assert(results.take(m) =~= results);
    }
}

/// Over sources that all compiled, with distinct normalized paths, the
/// catalog has one entry per source, in order, keyed by the normalized path
/// and holding what the compiler produced.
pub proof fn lemma_catalog_one_entry_per_source(results: Seq<(String, CompileOutcome)>)
    requires
        failures_of(results).len() == 0,
        forall|i: int, j: int|
            0 <= i < results.len() && 0 <= j < results.len() && i != j ==> normalized(
                #[trigger] results[i].0@,
            ) != normalized(#[trigger] results[j].0@),
    ensures
        compiled_entries(results).len() == results.len(),
        forall|i: int|
            0 <= i < results.len() ==> #[trigger] compiled_entries(results)[i] == (
                normalized(results[i].0@),
                outcome_text(results[i].1),
            ),
    decreases results.len(),
{
    if results.len() > 0 {
        let rest = results.drop_last();
        let last = results.len() - 1;
        match results[last].1 {
            CompileOutcome::Failed(_) => {
                assert(failures_of(results).len() > 0);
            },
            CompileOutcome::Compiled(_) => {},
        }
        assert(failures_of(rest).len() == 0) by {
            match results[last].1 {
                CompileOutcome::Compiled(_) => {},
                CompileOutcome::Failed(_) => {},
            }
        }
        assert forall|i: int, j: int|
            0 <= i < rest.len() && 0 <= j < rest.len() && i != j implies normalized(
            #[trigger] rest[i].0@) != normalized(#[trigger] rest[j].0@) by {
            assert(rest[i] == results[i] && rest[j] == results[j]);
        }
        lemma_catalog_one_entry_per_source(rest);
        let key = normalized(results[last].0@);
        if has_key(compiled_entries(rest), key) {
            let k = choose|k: int|
                0 <= k < compiled_entries(rest).len() && #[trigger] compiled_entries(rest)[k].0
                    == key;
            assert(compiled_entries(rest)[k].0 == normalized(rest[k].0@));
            assert(rest[k] == results[k]);
        }
        assert forall|i: int| 0 <= i < results.len() implies #[trigger] compiled_entries(
            results,
        )[i] == (normalized(results[i].0@), outcome_text(results[i].1)) by {
            if i < last {
                assert(rest[i] == results[i]);
                assert(compiled_entries(rest)[i] == (normalized(rest[i].0@), outcome_text(
                    rest[i].1,
                )));
            }
        }
    }
}

/// Every source that failed to compile is listed, under its normalized path,
/// with its error.
pub proof fn lemma_every_failure_listed(
    results: Seq<(String, CompileOutcome)>,
    i: int,
    e: CompileError,
)
    requires
        0 <= i < results.len(),
        results[i].1 == CompileOutcome::Failed(e),
    ensures
        failures_of(results).contains((normalized(results[i].0@), e)),
    decreases results.len(),
{
    let last = results.len() - 1;
    if i < last {
        let rest = results.drop_last();
        assert(rest[i] == results[i]);
        lemma_every_failure_listed(rest, i, e);
        let k = choose|k: int|
            0 <= k < failures_of(rest).len() && failures_of(rest)[k] == (
                normalized(results[i].0@),
                e,
            );
        match results[last].1 {
            CompileOutcome::Compiled(_) => {},
            CompileOutcome::Failed(_) => {
                assert(failures_of(results)[k] == failures_of(rest)[k]);
            },
        }
    } else {
        assert(failures_of(results)[failures_of(results).len() - 1] == (
            normalized(results[i].0@),
            e,
        ));
    }
}

/// A lookup of a source's path finds exactly the text its compile produced,
/// for every source whose key no earlier source took.
pub proof fn lemma_lookup_finds_compiled_text(
    results: Seq<(String, CompileOutcome)>,
    i: int,
    t: String,
)
    requires
        0 <= i < results.len(),
        results[i].1 == CompileOutcome::Compiled(t),
        forall|j: int| 0 <= j < i ==> normalized(#[trigger] results[j].0@) != normalized(results[i].0@),
    ensures
        entry_text(compiled_entries(results), normalized(results[i].0@)) == Some(t@),
{
    let key = normalized(results[i].0@);
    let before = results.take(i);
    let upto = results.take(i + 1);
    assert(upto.drop_last() =~= before);
    lemma_keys_come_from_results(before);
    if has_key(compiled_entries(before), key) {
        let k = choose|k: int|
            0 <= k < compiled_entries(before).len() && #[trigger] compiled_entries(before)[k].0
                == key;
        let j = choose|j: int|
            0 <= j < before.len() && #[trigger] compiled_entries(before)[k].0 == normalized(
                before[j].0@,
            );
        assert(before[j] == results[j]);
    }
    let idx = compiled_entries(before).len() as int;
    assert(compiled_entries(upto)[idx] == (key, t@));
    lemma_compiled_prefix(results, i + 1);
    assert(compiled_entries(results)[idx] == (key, t@));
    lemma_compiled_keys_distinct(results);
    let entries = compiled_entries(results);
    assert(0 <= idx < entries.len() && entries[idx].0 == key);
    assert(has_key(entries, key));
    let c = choose|c: int| 0 <= c < entries.len() && #[trigger] entries[c].0 == key;
    assert(c == idx);
}

} // verus!
