//! The migration engine: which migration files run, in what order, and what
//! each outcome does to the ledger of applied migrations.
use vstd::prelude::*;

use crate::script::{clean_script, cleaned_script, parse_statements, sqlite_statements};
use crate::text::{
    chars_of, contains_text, has_sql_extension, lemma_text_lt_irreflexive, lemma_text_lt_transitive,
    occurs_in, same_text, sql_extension, text_less, text_lt,
};

verus! {

/// Name of the table that records applied migrations.
pub const MIGRATION_TABLE_NAME: &'static str = "__migration__";

#[derive(Clone, Debug, PartialEq, Eq)]
pub enum MigrationError {
    /// The migrations directory does not exist.
    DirectoryNotFound(String),
    /// A migration file could not be read: file name, message.
    ReadError(String, String),
    /// A migration file could not be split into statements: file name, message.
    ParseError(String, String),
    /// A statement failed, other than on an object that already exists: file name, message.
    ApplyError(String, String),
    /// Recording a migration as applied failed: message.
    TrackingWriteError(String),
}

/// How the attempt to apply one migration ended.
#[derive(Clone, Debug, PartialEq, Eq)]
pub enum ApplyOutcome {
    /// Every statement ran and the migration was recorded in the same transaction.
    Committed,
    /// A statement failed with this engine message.
    StatementFailed(String),
    /// Recording the migration, or committing, failed with this message.
    TrackingFailed(String),
}

/// The three ways a migration attempt can count.
#[derive(Clone, Copy, Debug, PartialEq, Eq, Structural)]
pub enum Outcome {
    Committed,
    AlreadyExists,
    Failed,
}

/// What the caller does after an attempt has been recorded.
#[derive(Clone, Debug, PartialEq, Eq)]
pub enum Verdict {
    /// Go on with the next migration.
    Next,
    /// Record this migration as applied, then go on.
    MarkApplied(String),
    /// Stop the run with this error.
    Abort(MigrationError),
}

/// Whether an engine message says that an object already exists.
pub open spec fn already_exists_message(msg: Seq<char>) -> bool {
    occurs_in(msg, "already exists"@)
}

pub open spec fn outcome_of(o: ApplyOutcome) -> Outcome {
    match o {
        ApplyOutcome::Committed => Outcome::Committed,
        ApplyOutcome::StatementFailed(m) => if already_exists_message(m@) {
            Outcome::AlreadyExists
        } else {
            Outcome::Failed
        },
        ApplyOutcome::TrackingFailed(_) => Outcome::Failed,
    }
}

/// The ledger after one migration file is considered: a recorded file is
/// skipped; otherwise it is recorded when it committed or its objects
/// already existed, and the run stops (`None`) when it failed.
pub open spec fn file_step(ledger: Seq<Seq<char>>, name: Seq<char>, o: Outcome) -> Option<Seq<Seq<char>>> {
    if ledger.contains(name) {
        Some(ledger)
    } else {
        match o {
            Outcome::Failed => None,
            _ => Some(ledger.push(name)),
        }
    }
}

/// A whole run over `files` in order, starting from `ledger`, where `o`
/// gives each file's outcome: the final ledger, and whether the run succeeded.
pub open spec fn run_spec(files: Seq<Seq<char>>, ledger: Seq<Seq<char>>, o: spec_fn(Seq<char>) -> Outcome) -> (Seq<Seq<char>>, bool)
    decreases files.len(),
{
    if files.len() == 0 {
        (ledger, true)
    } else {
        match file_step(ledger, files[0], o(files[0])) {
            None => (ledger, false),
            Some(l) => run_spec(files.skip(1), l, o),
        }
    }
}

/// Classifies an attempt.
pub fn classify_outcome(o: &ApplyOutcome) -> (r: Outcome)
    ensures
        r == outcome_of(*o),
{
    match o {
        ApplyOutcome::Committed => Outcome::Committed,
        ApplyOutcome::StatementFailed(m) => if contains_text(m.as_str(), "already exists") {
            Outcome::AlreadyExists
        } else {
            Outcome::Failed
        },
        ApplyOutcome::TrackingFailed(_) => Outcome::Failed,
    }
}

pub open spec fn names(v: Seq<String>) -> Seq<Seq<char>> {
    v.map_values(|s: String| s@)
}

/// The state of one migration run: the migration files in apply order, the
/// names recorded as applied, and the position of the next file.
pub struct Migration {
    files: Vec<String>,
    ledger: Vec<String>,
    pos: usize,
    applied: usize,
}

impl Migration {
    pub closed spec fn files(&self) -> Seq<Seq<char>> {
        names(self.files@)
    }

    pub closed spec fn ledger(&self) -> Seq<Seq<char>> {
        names(self.ledger@)
    }

    pub closed spec fn pos(&self) -> int {
        self.pos as int
    }

    pub closed spec fn applied(&self) -> int {
        self.applied as int
    }

    /// What the rest of the run gives, from the current file on, when `o`
    /// gives each file's outcome.
    pub open spec fn rest(&self, o: spec_fn(Seq<char>) -> Outcome) -> (Seq<Seq<char>>, bool) {
        run_spec(self.files().skip(self.pos()), self.ledger(), o)
    }

    pub closed spec fn wf(&self) -> bool {
        &&& self.pos <= self.files@.len()
        &&& self.applied <= self.pos
    }
}

/// Creates the tracking table where it does not exist yet.
pub const SETUP_MIGRATION_TABLE_SQL: &'static str = "CREATE TABLE IF NOT EXISTS __migration__ (\n    id INTEGER PRIMARY KEY AUTOINCREMENT,\n    name TEXT NOT NULL UNIQUE,\n    applied_at TEXT NOT NULL DEFAULT CURRENT_TIMESTAMP\n);";

/// Lists the names of the applied migrations.
pub const APPLIED_NAMES_SQL: &'static str = "SELECT name FROM __migration__ ORDER BY id;";

/// Records a migration, inside the transaction that applied it.
pub const RECORD_MIGRATION_SQL: &'static str = "INSERT INTO __migration__ (name) VALUES (?)";

/// Records a migration whose objects were already there.
pub const MARK_MIGRATION_SQL: &'static str = "INSERT OR IGNORE INTO __migration__ (name) VALUES (?)";

/// The statements of a migration script, in source order, once its marker
/// lines are removed; a script that does not parse is a `ParseError` of
/// the file `name`.
pub fn prepare_migration(name: &str, contents: &str) -> (r: Result<Vec<String>, MigrationError>)
    ensures
        r is Ok <==> sqlite_statements(cleaned_script(contents@)) is Some,
        r is Ok ==> names(r->Ok_0@) == sqlite_statements(cleaned_script(contents@))->Some_0,
        r is Err ==> r->Err_0 is ParseError && r->Err_0->ParseError_0@ == name@,
{
    let cleaned = clean_script(contents);
    match parse_statements(cleaned.as_str()) {
        Ok(statements) => Ok(statements),
        Err(msg) => Err(MigrationError::ParseError(String::from_str(name), msg)),
    }
}

/// Whether `s` is in lexicographic order.
pub open spec fn sorted_names(s: Seq<String>) -> bool {
    forall|i: int, j: int| 0 <= i < j < s.len() ==> !text_lt(#[trigger] s[j]@, #[trigger] s[i]@)
}

/// Sorts file names lexicographically.
pub fn sort_names(v: Vec<String>) -> (r: Vec<String>)
    ensures
        sorted_names(r@),
        r@.to_multiset() == v@.to_multiset(),
{
    broadcast use vstd::seq_lib::group_to_multiset_ensures;

    let ghost orig = v@;
    let mut out: Vec<String> = Vec::new();
    for x in it: v
        invariant
            it.seq() == orig,
            sorted_names(out@),
            out@.to_multiset() == orig.take(it.index() as int).to_multiset(),
    {
        let xc = chars_of(x.as_str());
        let mut p: usize = 0;
        while p < out.len() && !text_less(&xc, &chars_of(out[p].as_str()))
            invariant
                p <= out@.len(),
                xc@ == x@,
                forall|k: int| 0 <= k < p ==> !text_lt(x@, #[trigger] out@[k]@),
            decreases out@.len() - p,
        {
            p = p + 1;
        }
        let ghost before = out@;
        out.insert(p, x);
        proof {
            assert forall|i: int, j: int| 0 <= i < j < out@.len() implies !text_lt(#[trigger] out@[j]@, #[trigger] out@[i]@) by {
                if j < p {
                    assert(out@[i] == before[i] && out@[j] == before[j]);
                } else if j == p {
                    assert(out@[i] == before[i]);
                } else if i > p {
                    assert(out@[i] == before[i - 1] && out@[j] == before[j - 1]);
                } else if i == p {
                    assert(out@[j] == before[j - 1]);
                    assert(text_lt(x@, before[p as int]@));
                    if text_lt(before[j - 1]@, x@) {
                        lemma_text_lt_transitive(before[j - 1]@, x@, before[p as int]@);
                        if j - 1 == p {
                            lemma_text_lt_irreflexive(before[p as int]@);
                        }
                    }
                } else {
                    assert(out@[i] == before[i] && out@[j] == before[j - 1]);
                }
            }
            assert(out@.remove(p as int) =~= before);
            assert(out@[p as int] == x);
            assert(out@.contains(x));
            let m = out@.to_multiset();
            out@.to_multiset_ensures();
            assert(out@.remove(p as int).to_multiset() =~= m.remove(x));
            assert(m.count(x) > 0);
            assert(m =~= before.to_multiset().insert(x));
            assert(orig.take(it.index() + 1) =~= orig.take(it.index() as int).push(x));
            orig.take(it.index() as int).to_multiset_ensures();
        }
    }
    assert(orig.take(orig.len() as int) =~= orig);
    out
}

/// The migration files of a directory listing, in apply order: the names
/// with the `sql` extension, sorted. A missing directory (`None`) is an error.
pub fn migration_files(listing: Option<Vec<String>>, dir: &str) -> (r: Result<Vec<String>, MigrationError>)
    ensures
        listing is None ==> r is Err && r->Err_0 is DirectoryNotFound && r->Err_0->DirectoryNotFound_0@ == dir@,
        listing is Some ==> r is Ok && sorted_names(r->Ok_0@) && r->Ok_0@.to_multiset()
            == listing->Some_0@.filter(|n: String| sql_extension(n@)).to_multiset(),
{
    match listing {
        None => Err(MigrationError::DirectoryNotFound(String::from_str(dir))),
        Some(entries) => {
            let ghost orig = entries@;
            let mut kept: Vec<String> = Vec::new();
            for e in it: entries
                invariant
                    it.seq() == orig,
                    kept@ == orig.take(it.index() as int).filter(|n: String| sql_extension(n@)),
            {
                let ghost prefix = orig.take(it.index() as int);
                assert(orig.take(it.index() + 1).drop_last() =~= prefix);
                proof {
                    reveal(Seq::filter);
                }
                if has_sql_extension(e.as_str()) {
                    kept.push(e);
                }
                assert(orig.take(it.index() + 1) =~= prefix.push(e));
            }
            assert(orig.take(orig.len() as int) =~= orig);
            Ok(sort_names(kept))
        },
    }
}

/// A run from position `pos` is the step on that file followed by the run
/// from the next position.
proof fn lemma_run_step(files: Seq<Seq<char>>, pos: int, ledger: Seq<Seq<char>>, o: spec_fn(Seq<char>) -> Outcome)
    requires
        0 <= pos < files.len(),
    ensures
        run_spec(files.skip(pos), ledger, o) == match file_step(ledger, files[pos], o(files[pos])) {
            None => (ledger, false),
            Some(l) => run_spec(files.skip(pos + 1), l, o),
        },
{
    assert(files.skip(pos)[0] == files[pos]);
    assert(files.skip(pos).skip(1) =~= files.skip(pos + 1));
}

/// Whether `name` is one of `ledger`.
fn recorded(ledger: &Vec<String>, name: &String) -> (r: bool)
    ensures
        r == names(ledger@).contains(name@),
{
    let mut i: usize = 0;
    while i < ledger.len()
        invariant
            i <= ledger@.len(),
            forall|k: int| 0 <= k < i ==> ledger@[k]@ != name@,
        decreases ledger@.len() - i,
    {
        if same_text(ledger[i].as_str(), name.as_str()) {
            assert(names(ledger@)[i as int] == name@);
            return true;
        }
        i = i + 1;
    }
    assert forall|k: int| 0 <= k < names(ledger@).len() implies names(ledger@)[k] != name@ by {
        assert(names(ledger@)[k] == ledger@[k]@);
    }
    false
}

impl Migration {
    /// A run over `files`, already in apply order, with `recorded` the names
    /// that the tracking table holds.
    pub fn new(files: Vec<String>, recorded: Vec<String>) -> (r: Migration)
        ensures
            r.wf(),
            r.files() == names(files@),
            r.ledger() == names(recorded@),
            r.pos() == 0,
            r.applied() == 0,
            forall|o: spec_fn(Seq<char>) -> Outcome| #[trigger] r.rest(o) == run_spec(names(files@), names(recorded@), o),
    {
        let r = Migration { files, ledger: recorded, pos: 0, applied: 0 };
        assert(r.files().skip(0) =~= r.files());
        r
    }

    /// How many migrations this run has applied or marked as applied.
    pub fn applied_count(&self) -> (r: usize)
        ensures
            r == self.applied(),
    {
        self.applied
    }

    /// The names recorded as applied, the ones found at the start first.
    pub fn recorded_names(&self) -> (r: Vec<String>)
        ensures
            names(r@) == self.ledger(),
    {
        let mut out: Vec<String> = Vec::new();
        let mut i: usize = 0;
        while i < self.ledger.len()
            invariant
                i <= self.ledger@.len(),
                out@ =~= self.ledger@.take(i as int),
            decreases self.ledger@.len() - i,
        {
            let c = self.ledger[i].clone();
            out.push(c);
            i = i + 1;
        }
        assert(out@ =~= self.ledger@);
        out
    }

    /// Moves past the files already recorded and returns the next one to
    /// apply, or `None` when every file has been considered.
    pub fn next_file(&mut self) -> (r: Option<String>)
        requires
            old(self).wf(),
        ensures
            final(self).wf(),
            final(self).files() == old(self).files(),
            final(self).ledger() == old(self).ledger(),
            final(self).applied() == old(self).applied(),
            old(self).pos() <= final(self).pos(),
            forall|k: int|
                old(self).pos() <= k < final(self).pos() ==> old(self).ledger().contains(
                    #[trigger] old(self).files()[k],
                ),
            r is Some <==> final(self).pos() < final(self).files().len(),
            r is Some ==> r->Some_0@ == final(self).files()[final(self).pos()]
                && !final(self).ledger().contains(final(self).files()[final(self).pos()]),
            forall|o: spec_fn(Seq<char>) -> Outcome| #[trigger] old(self).rest(o) == final(self).rest(o),
    {
        while self.pos < self.files.len()
            invariant
                self.wf(),
                self.files == old(self).files,
                self.ledger == old(self).ledger,
                self.applied == old(self).applied,
                old(self).pos <= self.pos,
                forall|k: int|
                    old(self).pos <= k < self.pos ==> names(self.ledger@).contains(
                        #[trigger] names(self.files@)[k],
                    ),
                forall|o: spec_fn(Seq<char>) -> Outcome| #[trigger] old(self).rest(o) == self.rest(o),
            decreases self.files@.len() - self.pos,
        {
            if !recorded(&self.ledger, &self.files[self.pos]) {
                return Some(self.files[self.pos].clone());
            }
            let ghost before = *self;
            self.pos = self.pos + 1;
            assert forall|o: spec_fn(Seq<char>) -> Outcome| #[trigger] old(self).rest(o) == self.rest(o) by {
                assert(old(self).rest(o) == before.rest(o));
                lemma_run_step(before.files(), before.pos(), before.ledger(), o);
            }
        }
        None
    }

    /// Records how the attempt on the current file ended. A commit, or a
    /// failure because an object already exists, records the file as applied
    /// and moves on; in the second case the caller writes the record. Any
    /// other failure stops the run.
    pub fn record(&mut self, outcome: ApplyOutcome) -> (r: Verdict)
        requires
            old(self).wf(),
            old(self).pos() < old(self).files().len(),
            !old(self).ledger().contains(old(self).files()[old(self).pos()]),
        ensures
            final(self).wf(),
            final(self).files() == old(self).files(),
            ({
                let name = old(self).files()[old(self).pos()];
                match file_step(old(self).ledger(), name, outcome_of(outcome)) {
                    Some(l) => final(self).ledger() == l && final(self).pos() == old(self).pos() + 1
                        && final(self).applied() == old(self).applied() + 1,
                    None => final(self).ledger() == old(self).ledger() && final(self).pos()
                        == old(self).pos() && final(self).applied() == old(self).applied(),
                }
            }),
            forall|o: spec_fn(Seq<char>) -> Outcome|
                #![trigger old(self).rest(o)]
                o(old(self).files()[old(self).pos()]) == outcome_of(outcome) ==> old(self).rest(o) == if outcome_of(outcome) == Outcome::Failed {
                    (old(self).ledger(), false)
                } else {
                    final(self).rest(o)
                },
            outcome_of(outcome) == Outcome::Committed ==> r == Verdict::Next,
            outcome_of(outcome) == Outcome::AlreadyExists ==> r is MarkApplied
                && r->MarkApplied_0@ == old(self).files()[old(self).pos()],
            outcome_of(outcome) == Outcome::Failed ==> r is Abort && match outcome {
                ApplyOutcome::StatementFailed(m) => r->Abort_0 is ApplyError
                    && r->Abort_0->ApplyError_0@ == old(self).files()[old(self).pos()]
                    && r->Abort_0->ApplyError_1 == m,
                ApplyOutcome::TrackingFailed(m) => r->Abort_0 == MigrationError::TrackingWriteError(m),
                ApplyOutcome::Committed => false,
            },
    {
        let n = self.files.len();
        assert(self.pos < n);
        let kind = classify_outcome(&outcome);
        let name = self.files[self.pos].clone();
        match kind {
            Outcome::Failed => {
                assert forall|o: spec_fn(Seq<char>) -> Outcome|
                    #![trigger old(self).rest(o)]
                    o(old(self).files()[old(self).pos()]) == outcome_of(outcome) implies old(self).rest(o) == (old(self).ledger(), false) by {
                    lemma_run_step(old(self).files(), old(self).pos(), old(self).ledger(), o);
                }
                match outcome {
                    ApplyOutcome::StatementFailed(m) => Verdict::Abort(MigrationError::ApplyError(name, m)),
                    ApplyOutcome::TrackingFailed(m) => Verdict::Abort(MigrationError::TrackingWriteError(m)),
                    ApplyOutcome::Committed => Verdict::Next,
                }
            },
            _ => {
                let ghost before = self.ledger@;
                self.ledger.push(name.clone());
                assert(names(self.ledger@) =~= names(before).push(name@));
                self.pos = self.pos + 1;
                self.applied = self.applied + 1;
                assert forall|o: spec_fn(Seq<char>) -> Outcome|
                    #![trigger old(self).rest(o)]
                    o(old(self).files()[old(self).pos()]) == outcome_of(outcome) implies old(self).rest(o) == self.rest(o) by {
                    lemma_run_step(old(self).files(), old(self).pos(), old(self).ledger(), o);
                }
                if kind == Outcome::Committed {
                    Verdict::Next
                } else {
                    Verdict::MarkApplied(name)
                }
            },
        }
    }
}

/// A run never removes a record.
pub proof fn lemma_run_keeps_records(files: Seq<Seq<char>>, ledger: Seq<Seq<char>>, o: spec_fn(Seq<char>) -> Outcome)
    ensures
        forall|x: Seq<char>| ledger.contains(x) ==> #[trigger] run_spec(files, ledger, o).0.contains(x),
    decreases files.len(),
{
    if files.len() > 0 {
        match file_step(ledger, files[0], o(files[0])) {
            None => {},
            Some(l) => {
                lemma_run_keeps_records(files.skip(1), l, o);
                assert(run_spec(files, ledger, o) == run_spec(files.skip(1), l, o));
                assert forall|x: Seq<char>| ledger.contains(x) implies l.contains(x) by {
                    if !ledger.contains(files[0]) {
                        let k = choose|k: int| 0 <= k < ledger.len() && ledger[k] == x;
                        assert(l[k] == x);
                    }
                }
            },
        }
    }
}

/// A run that succeeds leaves every one of its files recorded.
pub proof fn lemma_successful_run_records_all(files: Seq<Seq<char>>, ledger: Seq<Seq<char>>, o: spec_fn(Seq<char>) -> Outcome)
    requires
        run_spec(files, ledger, o).1,
    ensures
        forall|k: int| 0 <= k < files.len() ==> run_spec(files, ledger, o).0.contains(#[trigger] files[k]),
    decreases files.len(),
{
    if files.len() > 0 {
        let l = file_step(ledger, files[0], o(files[0]))->Some_0;
        lemma_successful_run_records_all(files.skip(1), l, o);
        lemma_run_keeps_records(files.skip(1), l, o);
        if !ledger.contains(files[0]) {
            assert(l[ledger.len() as int] == files[0]);
        }
        assert(l.contains(files[0]));
        assert(run_spec(files, ledger, o) == run_spec(files.skip(1), l, o));
        assert forall|k: int| 0 <= k < files.len() implies run_spec(files, ledger, o).0.contains(#[trigger] files[k]) by {
            if k > 0 {
                assert(files.skip(1)[k - 1] == files[k]);
            }
        }
    }
}

/// A run over files that are all recorded changes nothing and succeeds.
pub proof fn lemma_recorded_run_is_noop(files: Seq<Seq<char>>, ledger: Seq<Seq<char>>, o: spec_fn(Seq<char>) -> Outcome)
    requires
        forall|k: int| 0 <= k < files.len() ==> ledger.contains(#[trigger] files[k]),
    ensures
        run_spec(files, ledger, o) == (ledger, true),
    decreases files.len(),
{
    if files.len() > 0 {
        assert(ledger.contains(files[0]));
        assert forall|k: int| 0 <= k < files.skip(1).len() implies ledger.contains(#[trigger] files.skip(1)[k]) by {
            assert(files.skip(1)[k] == files[k + 1]);
        }
        lemma_recorded_run_is_noop(files.skip(1), ledger, o);
    }
}

/// Running the same migrations a second time, after a run that succeeded,
/// applies nothing new and leaves the records as they were, whatever the
/// second run's outcomes would have been.
pub proof fn lemma_run_idempotent(
    files: Seq<Seq<char>>,
    ledger: Seq<Seq<char>>,
    o: spec_fn(Seq<char>) -> Outcome,
    o2: spec_fn(Seq<char>) -> Outcome,
)
    requires
        run_spec(files, ledger, o).1,
    ensures
        run_spec(files, run_spec(files, ledger, o).0, o2) == (run_spec(files, ledger, o).0, true),
{
    lemma_successful_run_records_all(files, ledger, o);
    lemma_recorded_run_is_noop(files, run_spec(files, ledger, o).0, o2);
}

/// A run records no name twice.
pub proof fn lemma_run_no_duplicates(files: Seq<Seq<char>>, ledger: Seq<Seq<char>>, o: spec_fn(Seq<char>) -> Outcome)
    requires
        ledger.no_duplicates(),
    ensures
        run_spec(files, ledger, o).0.no_duplicates(),
    decreases files.len(),
{
    if files.len() > 0 {
        match file_step(ledger, files[0], o(files[0])) {
            None => {},
            Some(l) => {
                if !ledger.contains(files[0]) {
                    assert forall|i: int, j: int| 0 <= i < l.len() && 0 <= j < l.len() && i != j implies l[i] != l[j] by {
                        if i < ledger.len() && j < ledger.len() {
                        } else if i < ledger.len() {
                            assert(ledger.contains(l[i]));
                        } else {
                            assert(ledger.contains(l[j]));
                        }
                    }
                }
                lemma_run_no_duplicates(files.skip(1), l, o);
            },
        }
    }
}

/// Files apply in order: a file is recorded at the end of a run as soon as
/// neither it nor any file before it failed, even when a later file stops
/// the run.
pub proof fn lemma_earlier_files_kept(
    files: Seq<Seq<char>>,
    ledger: Seq<Seq<char>>,
    o: spec_fn(Seq<char>) -> Outcome,
    j: int,
)
    requires
        0 <= j < files.len(),
        forall|m: int| 0 <= m <= j ==> ledger.contains(#[trigger] files[m]) || o(files[m]) != Outcome::Failed,
    ensures
        run_spec(files, ledger, o).0.contains(files[j]),
    decreases files.len(),
{
    let l = file_step(ledger, files[0], o(files[0]))->Some_0;
    assert(ledger.contains(files[0]) || o(files[0]) != Outcome::Failed);
    if !ledger.contains(files[0]) {
        assert(l[ledger.len() as int] == files[0]);
    }
    assert(l.contains(files[0]));
    assert(run_spec(files, ledger, o) == run_spec(files.skip(1), l, o));
    if j == 0 {
        lemma_run_keeps_records(files.skip(1), l, o);
    } else {
        lemma_run_keeps_records(files.skip(1), l, o);
        assert forall|m: int| 0 <= m <= j - 1 implies l.contains(#[trigger] files.skip(1)[m]) || o(files.skip(1)[m]) != Outcome::Failed by {
            assert(files.skip(1)[m] == files[m + 1]);
            if ledger.contains(files[m + 1]) {
                let k = choose|k: int| 0 <= k < ledger.len() && ledger[k] == files[m + 1];
                if !ledger.contains(files[0]) {
                    assert(l[k] == files[m + 1]);
                }
            }
        }
        lemma_earlier_files_kept(files.skip(1), l, o, j - 1);
        assert(files.skip(1)[j - 1] == files[j]);
    }
}

/// A file whose only failure is an object that already exists is recorded
/// as applied and does not stop the run.
pub proof fn lemma_already_exists_is_recorded(ledger: Seq<Seq<char>>, name: Seq<char>)
    requires
        !ledger.contains(name),
    ensures
        file_step(ledger, name, Outcome::AlreadyExists) == Some(ledger.push(name)),
{
}

} // verus!
