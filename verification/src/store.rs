//! Run-log and selection-state locations, and the ordering of stored runs.

use vstd::prelude::*;
use vstd::seq_lib::*;
use crate::model::Run;
use crate::path::{join, join_path};
use crate::stamp::{hex_lower, hex_text, sha256_digest, sha256_of};
use crate::sorted_map::{lemma_text_le_antisym, lemma_text_le_total, lemma_text_le_trans, text_le, text_le_exec, text_lt};
use crate::text::{chars_of, has_suffix, push_char, string_of};

verus! {

/// Run logs read from the store, newest first, with a warning for each log
/// that could not be read.
#[derive(Debug)]
pub struct RunList {
    pub runs: Vec<Run>,
    pub warnings: Vec<String>,
}

impl Default for RunList {
    fn default() -> (r: RunList)
        ensures
            r.runs@.len() == 0,
            r.warnings@.len() == 0,
    {
        RunList { runs: Vec::new(), warnings: Vec::new() }
    }
}

/// The directory holding run logs, under the data directory.
pub fn runs_dir(data_dir: &str) -> (r: String)
    ensures
        r@ == join_path(data_dir@, "runs"@),
{
    join(data_dir, "runs")
}

/// The per-machine selection state file.
pub fn selection_path(data_dir: &str) -> (r: String)
    ensures
        r@ == join_path(data_dir@, "state.toml"@),
{
    join(data_dir, "state.toml")
}

/// The log file of a run.
pub fn path_for(runs_dir: &str, id: &str) -> (r: String)
    ensures
        r@ == join_path(runs_dir@, id@ + ".json"@),
{
    let mut name = String::from_str(id);
    name.append(".json");
    join(runs_dir, name.as_str())
}

/// The link to the newest run log.
pub fn latest_link(runs_dir: &str) -> (r: String)
    ensures
        r@ == join_path(runs_dir@, "latest.json"@),
{
    join(runs_dir, "latest.json")
}

/// The selection state of one config file: named by the SHA-256 of its
/// canonical path, a zero byte, and its content hash.
pub open spec fn scoped_selection_spec(data_dir: Seq<char>, path: Seq<u8>, hash: Seq<u8>) -> Seq<
    char,
> {
    join_path(
        join_path(data_dir, "selection"@),
        hex_text(sha256_of(path + seq![0u8] + hash)) + ".toml"@,
    )
}

/// The selection state file of one config file, given the bytes of its
/// canonical path and of its content hash.
pub fn scoped_selection_path(data_dir: &str, canonical_path: &[u8], config_hash: &[u8]) -> (r:
    String)
    ensures
        r@ == scoped_selection_spec(data_dir@, canonical_path@, config_hash@),
{
    let mut data: Vec<u8> = Vec::new();
    let mut i: usize = 0;
    while i < canonical_path.len()
        invariant
            i <= canonical_path@.len(),
            data@ == canonical_path@.take(i as int),
        decreases canonical_path@.len() - i,
    {
        data.push(canonical_path[i]);
        i += 1;
    }
    data.push(0u8);
    let mut j: usize = 0;
    while j < config_hash.len()
        invariant
            j <= config_hash@.len(),
            data@ == canonical_path@ + seq![0u8] + config_hash@.take(j as int),
        decreases config_hash@.len() - j,
    {
        data.push(config_hash[j]);
        j += 1;
    }
    assert(config_hash@.take(config_hash@.len() as int) =~= config_hash@);
    assert(canonical_path@.take(canonical_path@.len() as int) =~= canonical_path@);
    let digest = sha256_digest(data.as_slice());
    let mut name = hex_lower(digest.as_slice());
    name.append(".toml");
    let dir = join(data_dir, "selection");
    join(dir.as_str(), name.as_str())
}

/// A directory entry is a run log: a `.json` file other than `latest.json`.
pub open spec fn is_run_log_spec(file_name: Seq<char>) -> bool {
    &&& has_suffix(file_name, ".json"@)
    &&& file_name.len() > 5
    &&& file_name != "latest.json"@
}

/// Whether a directory entry of the runs directory is a run log.
pub fn is_run_log(file_name: &str) -> (r: bool)
    ensures
        r == is_run_log_spec(file_name@),
{
    let v = chars_of(file_name);
    let suffix = chars_of(".json");
    let latest = chars_of("latest.json");
    proof {
        reveal_strlit(".json");
        reveal_strlit("latest.json");
    }
    crate::text::ends_with(v.as_slice(), suffix.as_slice()) && v.len() > 5
        && !crate::text::chars_eq(v.as_slice(), latest.as_slice())
}

/// An id in canonical ULID shape: 26 ASCII letters or digits.
pub open spec fn ulid_shaped(id: Seq<char>) -> bool {
    id.len() == 26 && forall|i: int| 0 <= i < 26 ==> crate::text::ascii_alnum(#[trigger] id[i])
}

/// The key runs are ordered by: the id when it is ULID-shaped (ULIDs sort by
/// time), else the start time.
pub open spec fn sort_key(run: Run) -> Seq<char> {
    if ulid_shaped(run.id@) {
        run.id@
    } else {
        run.started_at@
    }
}

fn is_ascii_alnum(c: char) -> (r: bool)
    ensures
        r == crate::text::ascii_alnum(c),
{
    ('a' <= c && c <= 'z') || ('A' <= c && c <= 'Z') || ('0' <= c && c <= '9')
}

/// The key a run is ordered by.
pub fn run_sort_key(run: &Run) -> (r: String)
    ensures
        r@ == sort_key(*run),
{
    let id = chars_of(run.id.as_str());
    if id.len() != 26 {
        return run.started_at.clone();
    }
    let mut i: usize = 0;
    while i < 26
        invariant
            i <= 26,
            id@ == run.id@,
            id@.len() == 26,
            forall|k: int| 0 <= k < i ==> crate::text::ascii_alnum(#[trigger] id@[k]),
        decreases 26 - i,
    {
        if !is_ascii_alnum(id[i]) {
            return run.started_at.clone();
        }
        i += 1;
    }
    run.id.clone()
}

/// `x` goes into the newest-first list `s` ahead of the first run with a
/// strictly smaller key, so that runs with equal keys keep their order.
pub open spec fn insert_newest_first(s: Seq<Run>, x: Run) -> Seq<Run>
    decreases s.len(),
{
    if s.len() == 0 {
        seq![x]
    } else if text_lt(sort_key(s[0]), sort_key(x)) {
        seq![x] + s
    } else {
        seq![s[0]] + insert_newest_first(s.drop_first(), x)
    }
}

/// Runs ordered newest first by their keys; a stable sort.
pub open spec fn newest_first(s: Seq<Run>) -> Seq<Run>
    decreases s.len(),
{
    if s.len() == 0 {
        Seq::empty()
    } else {
        insert_newest_first(newest_first(s.drop_last()), s.last())
    }
}

/// Keys do not increase along `s`.
pub open spec fn keys_descending(s: Seq<Run>) -> bool {
    forall|i: int, j: int|
        0 <= i < j < s.len() ==> text_le(sort_key(#[trigger] s[j]), sort_key(#[trigger] s[i]))
}

/// The position at which `insert_newest_first` places `x`, with the result
/// being `s` with `x` inserted there.
proof fn lemma_insert_shape(s: Seq<Run>, x: Run) -> (k: int)
    ensures
        0 <= k <= s.len(),
        insert_newest_first(s, x) == s.insert(k, x),
        forall|i: int| 0 <= i < k ==> !text_lt(sort_key(#[trigger] s[i]), sort_key(x)),
        k < s.len() ==> text_lt(sort_key(s[k]), sort_key(x)),
    decreases s.len(),
{
    if s.len() == 0 {
        assert(seq![x] =~= s.insert(0, x));
        0
    } else if text_lt(sort_key(s[0]), sort_key(x)) {
        assert(seq![x] + s =~= s.insert(0, x));
        0
    } else {
        let k = lemma_insert_shape(s.drop_first(), x);
        assert(seq![s[0]] + s.drop_first().insert(k, x) =~= s.insert(k + 1, x));
        assert forall|i: int| 0 <= i < k + 1 implies !text_lt(
            sort_key(#[trigger] s[i]),
            sort_key(x),
        ) by {
            if i > 0 {
                assert(s[i] == s.drop_first()[i - 1]);
            }
        }
        k + 1
    }
}

/// Inserting into a descending list keeps it descending and adds `x` once.
proof fn lemma_insert_sorted(s: Seq<Run>, x: Run)
    requires
        keys_descending(s),
    ensures
        keys_descending(insert_newest_first(s, x)),
        insert_newest_first(s, x).to_multiset() == s.to_multiset().insert(x),
{
    let k = lemma_insert_shape(s, x);
    let t = s.insert(k, x);
    broadcast use group_to_multiset_ensures;
    to_multiset_insert(s, k, x);
    assert forall|i: int, j: int| 0 <= i < j < t.len() implies text_le(
        sort_key(#[trigger] t[j]),
        sort_key(#[trigger] t[i]),
    ) by {
        if i < k && j == k {
            lemma_text_le_total(sort_key(s[i]), sort_key(x));
        } else if i == k && j > k {
            if k < s.len() {
                lemma_text_le_total(sort_key(s[j - 1]), sort_key(s[k]));
                if j - 1 > k {
                    assert(text_le(sort_key(s[j - 1]), sort_key(s[k])));
                }
                lemma_text_le_trans(sort_key(s[j - 1]), sort_key(s[k]), sort_key(x));
            }
        } else if i < k && j > k {
            assert(text_le(sort_key(s[j - 1]), sort_key(s[i])));
        } else if i > k {
            assert(text_le(sort_key(s[j - 1]), sort_key(s[i - 1])));
        } else {
            assert(text_le(sort_key(s[j]), sort_key(s[i])));
        }
    }
}

/// Newest-first ordering sorts by key, descending, and keeps every run.
pub proof fn lemma_newest_first_sorted(s: Seq<Run>)
    ensures
        keys_descending(newest_first(s)),
        newest_first(s).to_multiset() == s.to_multiset(),
    decreases s.len(),
{
    broadcast use group_to_multiset_ensures;
    if s.len() > 0 {
        lemma_newest_first_sorted(s.drop_last());
        lemma_insert_sorted(newest_first(s.drop_last()), s.last());
        assert(s =~= s.drop_last().push(s.last()));
        to_multiset_build(s.drop_last(), s.last());
    }
}

/// Inserts `x` into the newest-first vector `v`.
fn insert_run(v: &mut Vec<Run>, x: Run)
    ensures
        final(v)@ == insert_newest_first(old(v)@, x),
{
    let ghost s = v@;
    let xk = run_sort_key(&x);
    let xk = chars_of(xk.as_str());
    let mut k: usize = 0;
    assert(s.take(0) + insert_newest_first(s.skip(0), x) =~= insert_newest_first(s, x)) by {
        assert(s.skip(0) =~= s);
    }
    while k < v.len()
        invariant
            k <= v@.len(),
            v@ == s,
            xk@ == sort_key(x),
            insert_newest_first(s, x) == s.take(k as int) + insert_newest_first(s.skip(k as int), x),
        ensures
            k <= s.len(),
            v@ == s,
            insert_newest_first(s, x) == s.take(k as int) + insert_newest_first(s.skip(k as int), x),
            k < s.len() ==> text_lt(sort_key(s[k as int]), sort_key(x)),
        decreases v@.len() - k,
    {
        let key = run_sort_key(&v[k]);
        let key = chars_of(key.as_str());
        let le = text_le_exec(key.as_slice(), xk.as_slice());
        let eq = crate::text::chars_eq(key.as_slice(), xk.as_slice());
        if le && !eq {
            proof {
                assert(s.skip(k as int)[0] == s[k as int]);
            }
            break;
        }
        proof {
            let t = s.skip(k as int);
            assert(t[0] == s[k as int]);
            assert(t.drop_first() =~= s.skip(k + 1));
            assert(s.take(k as int) + seq![s[k as int]] =~= s.take(k + 1));
            assert(s.take(k as int) + (seq![t[0]] + insert_newest_first(t.drop_first(), x))
                =~= s.take(k + 1) + insert_newest_first(s.skip(k + 1), x));
        }
        k += 1;
    }
    proof {
        let t = s.skip(k as int);
        if k == s.len() {
            assert(t.len() == 0);
        }
        assert(insert_newest_first(t, x) == seq![x] + t);
        assert(s.take(k as int) + (seq![x] + t) =~= s.insert(k as int, x));
    }
    v.insert(k, x);
}

/// Orders runs newest first: by key, descending, runs with equal keys kept
/// in the order given.
pub fn sort_newest_first(runs: Vec<Run>) -> (r: Vec<Run>)
    ensures
        r@ == newest_first(runs@),
{
    let mut runs = runs;
    let ghost orig = runs@;
    let mut out: Vec<Run> = Vec::new();
    let n = runs.len();
    let mut i: usize = 0;
    while i < n
        invariant
            n == orig.len(),
            i <= n,
            runs@ == orig.skip(i as int),
            out@ == newest_first(orig.take(i as int)),
        decreases n - i,
    {
        let x = runs.remove(0);
        proof {
            assert(x == orig[i as int]);
            assert(orig.take(i + 1).drop_last() =~= orig.take(i as int));
            assert(orig.take(i + 1).last() == x);
            assert(orig.skip(i as int).drop_first() =~= orig.skip(i + 1));
        }
        insert_run(&mut out, x);
        i += 1;
    }
    proof {
        assert(orig.take(n as int) =~= orig);
    }
    out
}

/// What reading one entry of the runs directory gave.
#[derive(Debug)]
pub enum LogRead {
    /// The directory entry itself could not be read.
    EntryError { error: String },
    /// The log file could not be read.
    ReadError { path: String, error: String },
    /// The log file was read but does not hold a run.
    ParseError { path: String, error: String },
    /// A run.
    Parsed(Run),
}

/// The warning an unreadable entry is reported with.
pub open spec fn read_warning(e: LogRead) -> Option<Seq<char>> {
    match e {
        LogRead::EntryError { error } => Some("failed to read run entry: "@ + error@),
        LogRead::ReadError { path, error } => Some(
            "failed to read run log "@ + path@ + ": "@ + error@,
        ),
        LogRead::ParseError { path, error } => Some(
            "failed to parse run log "@ + path@ + ": "@ + error@,
        ),
        LogRead::Parsed(_) => None,
    }
}

/// The runs among the entries, in order.
pub open spec fn parsed_runs(s: Seq<LogRead>) -> Seq<Run>
    decreases s.len(),
{
    if s.len() == 0 {
        Seq::empty()
    } else {
        match s.last() {
            LogRead::Parsed(run) => parsed_runs(s.drop_last()).push(run),
            _ => parsed_runs(s.drop_last()),
        }
    }
}

/// The warnings for the unreadable entries, in order.
pub open spec fn read_warnings(s: Seq<LogRead>) -> Seq<Seq<char>>
    decreases s.len(),
{
    if s.len() == 0 {
        Seq::empty()
    } else {
        match read_warning(s.last()) {
            Some(w) => read_warnings(s.drop_last()).push(w),
            None => read_warnings(s.drop_last()),
        }
    }
}

/// The warning text for an unreadable entry.
fn warning_text(e: &LogRead) -> (r: Option<String>)
    ensures
        match r {
            Some(w) => read_warning(*e) == Some(w@),
            None => read_warning(*e) is None,
        },
{
    match e {
        LogRead::EntryError { error } => {
            let mut w = String::from_str("failed to read run entry: ");
            w.append(error.as_str());
            Some(w)
        },
        LogRead::ReadError { path, error } => {
            let mut w = String::from_str("failed to read run log ");
            w.append(path.as_str());
            w.append(": ");
            w.append(error.as_str());
            Some(w)
        },
        LogRead::ParseError { path, error } => {
            let mut w = String::from_str("failed to parse run log ");
            w.append(path.as_str());
            w.append(": ");
            w.append(error.as_str());
            Some(w)
        },
        LogRead::Parsed(_) => None,
    }
}

/// Gathers what was read from the runs directory: the runs newest first,
/// and a warning for each entry that could not be read, in order.
pub fn collect_runs(reads: Vec<LogRead>) -> (r: RunList)
    ensures
        r.runs@ == newest_first(parsed_runs(reads@)),
        crate::text::str_views(r.warnings@) == read_warnings(reads@),
{
    let mut reads = reads;
    let ghost orig = reads@;
    let n = reads.len();
    let mut runs: Vec<Run> = Vec::new();
    let mut warnings: Vec<String> = Vec::new();
    let mut i: usize = 0;
    while i < n
        invariant
            n == orig.len(),
            i <= n,
            reads@ == orig.skip(i as int),
            runs@ == parsed_runs(orig.take(i as int)),
            crate::text::str_views(warnings@) == read_warnings(orig.take(i as int)),
        decreases n - i,
    {
        let e = reads.remove(0);
        proof {
            assert(e == orig[i as int]);
            assert(orig.take(i + 1).drop_last() =~= orig.take(i as int));
            assert(orig.take(i + 1).last() == e);
            assert(orig.skip(i as int).drop_first() =~= orig.skip(i + 1));
        }
        match warning_text(&e) {
            Some(w) => {
                warnings.push(w);
                assert(crate::text::str_views(warnings@) =~= read_warnings(orig.take(i + 1)));
            },
            None => {
                assert(crate::text::str_views(warnings@) =~= read_warnings(orig.take(i + 1)));
            },
        }
        match e {
            LogRead::Parsed(run) => {
                runs.push(run);
            },
            _ => {},
        }
        i += 1;
    }
    proof {
        assert(orig.take(n as int) =~= orig);
    }
    RunList { runs: sort_newest_first(runs), warnings }
}

} // verus!
