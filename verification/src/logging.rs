//! The application's logs: where each log lives, how a line reads, which
//! old log files are removed, how a full log is rotated, and the order in
//! which emptied directories are pruned.

use vstd::prelude::*;
use crate::clock::{datetime_millis_text, format_datetime_millis, format_two_digits, format_year_width4, signed_width4, two, LocalTimestamp};
use crate::paths::{joined, path_of, LibPath};
use crate::sorting::{comes_before, is_stable_desc_order, lemma_stable_desc_order, stable_desc_order, stable_order_desc};
use crate::text::{
    chars_of, decimal, decimal_int, lemma_decimal_roundtrip, lemma_parse_decimal, ends_with, ends_with_chars, last_index_of, last_index_of_chars, lemma_last_index_of,
    parse_u64_chars, parse_unsigned, push_chars, push_decimal, push_decimal_i64, push_str, starts_with,
    starts_with_chars, str_eq, string_of, sub_chars,
};

verus! {

/// A log file grows to this size before it is rotated.
pub const LOG_MAX_BYTES: u64 = 10485760;

/// Log files are kept this many days.
pub const LOG_RETENTION_DAYS: i64 = 30;

/// At most this many log files of a namespace are kept.
pub const LOG_RETENTION_FILES: usize = 200;

/// The two logs: the backend's own, and the analysis workers'.
#[derive(Debug, Clone, Copy, PartialEq, Eq)]
pub enum LogNamespace {
    Backend,
    Worker,
}

pub open spec fn namespace_name(ns: LogNamespace) -> Seq<char> {
    match ns {
        LogNamespace::Backend => "backend"@,
        LogNamespace::Worker => "worker"@,
    }
}

impl LogNamespace {
    /// The directory name of the namespace.
    pub fn as_str(self) -> (r: &'static str)
        ensures
            r@ == namespace_name(self),
    {
        match self {
            LogNamespace::Backend => "backend",
            LogNamespace::Worker => "worker",
        }
    }
}

/// The severity of a log line.
#[derive(Debug, Clone, Copy, PartialEq, Eq)]
pub enum LogLevel {
    Info,
    Error,
}

pub open spec fn level_name(l: LogLevel) -> Seq<char> {
    match l {
        LogLevel::Info => "INFO"@,
        LogLevel::Error => "ERROR"@,
    }
}

impl LogLevel {
    /// The label of the level in a log line.
    pub fn as_str(self) -> (r: &'static str)
        ensures
            r@ == level_name(self),
    {
        match self {
            LogLevel::Info => "INFO",
            LogLevel::Error => "ERROR",
        }
    }
}

/// The root of a namespace's logs: the log directory set at start-up
/// (`logs` when logging was never initialised) and the namespace's name.
pub fn namespace_root(log_root: &Option<LibPath>, namespace: LogNamespace) -> (r: LibPath)
    ensures
        log_root matches Some(root) ==> r@ == joined(root@, namespace_name(namespace)),
        log_root is None ==> r@ == path_of("logs"@, seq![namespace_name(namespace)]),
{
    match log_root {
        Some(root) => root.join(namespace.as_str()),
        None => {
            let r = LibPath::new("logs").join(namespace.as_str());
            assert(r@.1 =~= seq![namespace_name(namespace)]);
            r
        },
    }
}

/// The log file `file_name` of the day `t`: `<year>/<month>/<day>/<file>`
/// under the namespace's root.
pub fn dated_log_path(log_root: &Option<LibPath>, namespace: LogNamespace, t: &LocalTimestamp, file_name: &str) -> (r: LibPath)
    ensures
        r@ == joined(
            joined(joined(joined(namespace_root_spec(log_root, namespace), signed_width4(t.year as int)), two(t.month as nat)), two(t.day as nat)),
            file_name@,
        ),
{
    let root = namespace_root(log_root, namespace);
    let y = format_year_width4(t.year);
    let m = format_two_digits(t.month);
    let d = format_two_digits(t.day);
    root.join(y.as_str()).join(m.as_str()).join(d.as_str()).join(file_name)
}

/// The root of a namespace's logs, as `namespace_root` gives it.
pub open spec fn namespace_root_spec(log_root: &Option<LibPath>, namespace: LogNamespace) -> (Seq<char>, Seq<Seq<char>>) {
    match log_root {
        Some(root) => joined(root@, namespace_name(namespace)),
        None => path_of("logs"@, seq![namespace_name(namespace)]),
    }
}

/// The log of one task's worker on the day `t`: `task-<id>.log`.
pub fn worker_log_path(log_root: &Option<LibPath>, t: &LocalTimestamp, task_id: i64) -> (r: LibPath)
    ensures
        r@ == joined(
            joined(joined(joined(namespace_root_spec(log_root, LogNamespace::Worker), signed_width4(t.year as int)), two(t.month as nat)), two(t.day as nat)),
            "task-"@ + decimal_int(task_id as int) + ".log"@,
        ),
{
    let mut name: Vec<char> = Vec::new();
    push_str(&mut name, "task-");
    push_decimal_i64(&mut name, task_id);
    push_str(&mut name, ".log");
    let file = string_of(name.as_slice());
    dated_log_path(log_root, LogNamespace::Worker, t, file.as_str())
}

/// A log line: the time with milliseconds, the level in brackets, the message.
pub open spec fn log_line_text(t: LocalTimestamp, level: LogLevel, message: Seq<char>) -> Seq<char> {
    datetime_millis_text(t) + " ["@ + level_name(level) + "] "@ + message
}

/// Where a line of the log `stem` goes on the day `t`, and the line itself.
pub fn append_log(
    log_root: &Option<LibPath>,
    namespace: LogNamespace,
    stem: &str,
    level: LogLevel,
    message: &str,
    t: &LocalTimestamp,
) -> (r: (LibPath, String))
    requires
        t.well_formed(),
    ensures
        r.0@ == joined(
            joined(joined(joined(namespace_root_spec(log_root, namespace), signed_width4(t.year as int)), two(t.month as nat)), two(t.day as nat)),
            stem@ + ".log"@,
        ),
        r.1@ == log_line_text(*t, level, message@),
{
    let mut name: Vec<char> = Vec::new();
    push_str(&mut name, stem);
    push_str(&mut name, ".log");
    let file = string_of(name.as_slice());
    let path = dated_log_path(log_root, namespace, t, file.as_str());
    let stamp = format_datetime_millis(t);
    let mut line: Vec<char> = Vec::new();
    push_str(&mut line, stamp.as_str());
    push_str(&mut line, " [");
    push_str(&mut line, level.as_str());
    push_str(&mut line, "] ");
    push_str(&mut line, message);
    assert(line@ =~= log_line_text(*t, level, message@));
    (path, string_of(line.as_slice()))
}

/// Thirty days in nanoseconds.
pub open spec fn retention_nanos() -> int {
    2_592_000_000_000_000int
}

/// The moment before which log files are expired: thirty days before `now`
/// (times in nanoseconds from the Unix epoch).
pub fn log_retention_cutoff(now: i128) -> (r: i128)
    requires
        now >= i128::MIN + retention_nanos(),
    ensures
        r == now - retention_nanos(),
{
    now - (LOG_RETENTION_DAYS as i128) * 24 * 60 * 60 * 1_000_000_000
}

/// The log files last modified before `cutoff`, which are removed.
pub open spec fn is_expired(modified: Seq<i128>, cutoff: i128, i: int) -> bool {
    modified[i] < cutoff
}

/// The indices of the expired log files, in the order they were listed.
pub fn expired_log_files(modified: &Vec<i128>, cutoff: i128) -> (r: Vec<usize>)
    ensures
        forall|k: int| 0 <= k < r@.len() ==> (#[trigger] r@[k]) < modified@.len() && is_expired(modified@, cutoff, r@[k] as int),
        forall|i: int| 0 <= i < modified@.len() && is_expired(modified@, cutoff, i) ==> r@.contains(i as usize),
        forall|a: int, b: int| 0 <= a < b < r@.len() ==> #[trigger] r@[a] < #[trigger] r@[b],
{
    let mut r: Vec<usize> = Vec::new();
    let mut i: usize = 0;
    while i < modified.len()
        invariant
            i <= modified.len(),
            forall|k: int| 0 <= k < r@.len() ==> (#[trigger] r@[k]) < i && is_expired(modified@, cutoff, r@[k] as int),
            forall|j: int| 0 <= j < i && is_expired(modified@, cutoff, j) ==> r@.contains(j as usize),
            forall|a: int, b: int| 0 <= a < b < r@.len() ==> #[trigger] r@[a] < #[trigger] r@[b],
        decreases modified.len() - i,
    {
        if modified[i] < cutoff {
            let ghost before = r@;
            r.push(i);
            proof {
                assert forall|j: int| 0 <= j < i + 1 && is_expired(modified@, cutoff, j) implies r@.contains(j as usize) by {
                    if j < i {
                        let k = choose|k: int| 0 <= k < before.len() && before[k] == j as usize;
                        assert(r@[k] == j as usize);
                    } else {
                        assert(r@[before.len() as int] == i);
                    }
                }
            }
        }
        i += 1;
    }
    r
}

/// The log files that survive expiry: modified at or after `cutoff` and still
/// present, listed by index.
pub open spec fn retained_logs(modified: Seq<i128>, present: Seq<bool>, cutoff: i128, n: int) -> Seq<usize>
    decreases n,
{
    if n <= 0 {
        Seq::<usize>::empty()
    } else {
        let init = retained_logs(modified, present, cutoff, n - 1);
        if modified[n - 1] >= cutoff && present[n - 1] {
            init.push((n - 1) as usize)
        } else {
            init
        }
    }
}

/// File `a` is kept in preference to file `b`: it is newer, or as new and
/// listed first.
pub open spec fn newer_log(modified: Seq<i128>, a: int, b: int) -> bool {
    modified[a] > modified[b] || (modified[a] == modified[b] && a < b)
}

proof fn lemma_retained_increasing(modified: Seq<i128>, present: Seq<bool>, cutoff: i128, n: int)
    requires
        0 <= n <= modified.len(),
        n <= present.len(),
        modified.len() <= usize::MAX,
    ensures
        forall|k: int| 0 <= k < retained_logs(modified, present, cutoff, n).len() ==>
            (#[trigger] retained_logs(modified, present, cutoff, n)[k]) < n
            && modified[retained_logs(modified, present, cutoff, n)[k] as int] >= cutoff
            && present[retained_logs(modified, present, cutoff, n)[k] as int],
        forall|a: int, b: int| 0 <= a < b < retained_logs(modified, present, cutoff, n).len() ==>
            #[trigger] retained_logs(modified, present, cutoff, n)[a] < #[trigger] retained_logs(modified, present, cutoff, n)[b],
        forall|i: int| 0 <= i < n && modified[i] >= cutoff && present[i] ==> retained_logs(modified, present, cutoff, n).contains(i as usize),
    decreases n,
{
    if n > 0 {
        lemma_retained_increasing(modified, present, cutoff, n - 1);
        let init = retained_logs(modified, present, cutoff, n - 1);
        let cur = retained_logs(modified, present, cutoff, n);
        if modified[n - 1] >= cutoff && present[n - 1] {
            assert(cur == init.push((n - 1) as usize));
            assert forall|k: int| 0 <= k < cur.len() implies (#[trigger] cur[k]) < n && modified[cur[k] as int] >= cutoff && present[cur[k] as int] by {
                if k < init.len() {
                    assert(cur[k] == init[k]);
                }
            }
            assert forall|a: int, b: int| 0 <= a < b < cur.len() implies #[trigger] cur[a] < #[trigger] cur[b] by {
                assert(cur[a] == init[a]);
                if b < init.len() {
                    assert(cur[b] == init[b]);
                }
            }
        } else {
            assert(cur == init);
        }
        assert forall|i: int| 0 <= i < n && modified[i] >= cutoff && present[i] implies cur.contains(i as usize) by {
            if i < n - 1 {
                let k = choose|k: int| 0 <= k < init.len() && init[k] == i as usize;
                assert(cur[k] == i as usize);
            } else {
                assert(cur[init.len() as int] == i as usize);
            }
        }
    }
}

/// Of the files that survive expiry, those beyond the newest 200, which are
/// removed too: the newest files stay, and among files of the same age the
/// ones listed first stay. Each file is known by its index in `modified`,
/// its last modification in nanoseconds from the Unix epoch; `present`
/// tells whether it still exists.
pub fn cleanup_logs(modified: &Vec<i128>, present: &Vec<bool>, cutoff: i128) -> (r: Vec<usize>)
    requires
        present.len() == modified.len(),
    ensures
        ({
            let kept = retained_logs(modified@, present@, cutoff, modified@.len() as int);
            &&& r@.len() == if kept.len() > 200 { kept.len() - 200 } else { 0 }
            &&& r@.no_duplicates()
            &&& forall|k: int| 0 <= k < r@.len() ==> kept.contains(#[trigger] r@[k])
            &&& forall|a: int, b: int| 0 <= a < b < r@.len() ==> newer_log(modified@, #[trigger] r@[a] as int, #[trigger] r@[b] as int)
            &&& forall|i: usize, k: int| #![trigger kept.contains(i), r@[k]] kept.contains(i) && !r@.contains(i) && 0 <= k < r@.len() ==> newer_log(modified@, i as int, r@[k] as int)
        }),
{
    let ghost n = modified@.len() as int;
    let mut kept: Vec<usize> = Vec::new();
    let mut i: usize = 0;
    while i < modified.len()
        invariant
            i <= modified.len(),
            present.len() == modified.len(),
            kept@ == retained_logs(modified@, present@, cutoff, i as int),
        decreases modified.len() - i,
    {
        if modified[i] >= cutoff && present[i] {
            kept.push(i);
        }
        i += 1;
    }
    proof {
        lemma_retained_increasing(modified@, present@, cutoff, n);
    }
    let mut keys: Vec<i128> = Vec::new();
    let mut j: usize = 0;
    while j < kept.len()
        invariant
            j <= kept.len(),
            keys.len() == j,
            forall|k: int| 0 <= k < kept@.len() ==> (#[trigger] kept@[k]) < modified@.len(),
            forall|k: int| 0 <= k < j ==> keys@[k] == modified@[#[trigger] kept@[k] as int],
        decreases kept.len() - j,
    {
        keys.push(modified[kept[j]]);
        j += 1;
    }
    let order = stable_order_desc(&keys);
    let mut r: Vec<usize> = Vec::new();
    let ghost sorted = order@.map_values(|q: usize| kept@[q as int]);
    proof {
        assert forall|a: int, b: int| 0 <= a < b < sorted.len() implies newer_log(modified@, #[trigger] sorted[a] as int, #[trigger] sorted[b] as int) by {
            assert(comes_before(keys@, order@[a] as int, order@[b] as int));
            let oa = order@[a] as int;
            let ob = order@[b] as int;
            if keys@[oa] == keys@[ob] && oa < ob {
                assert(kept@[oa] < kept@[ob]);
            }
        }
    }
    if order.len() > LOG_RETENTION_FILES {
        let mut p: usize = LOG_RETENTION_FILES;
        while p < order.len()
            invariant
                200 <= p <= order.len(),
                order.len() == kept.len(),
                forall|k: int| 0 <= k < order.len() ==> (#[trigger] order@[k]) < kept.len(),
                sorted == order@.map_values(|q: usize| kept@[q as int]),
                r@ == sorted.subrange(200, p as int),
            decreases order.len() - p,
        {
            r.push(kept[order[p]]);
            p += 1;
            assert(r@ =~= sorted.subrange(200, p as int));
        }
        assert(r@ == sorted.skip(200));
    }
    proof {
        let kept_s = kept@;
        assert(kept_s == retained_logs(modified@, present@, cutoff, n));
        // sorted is a permutation of kept
        assert forall|a: int, b: int| 0 <= a < sorted.len() && 0 <= b < sorted.len() && a != b implies sorted[a] != sorted[b] by {
            assert(order@[a] != order@[b]);
            if kept_s[order@[a] as int] == kept_s[order@[b] as int] {
                let x = order@[a] as int;
                let y = order@[b] as int;
                if x < y {
                    assert(kept_s[x] < kept_s[y]);
                } else {
                    assert(kept_s[y] < kept_s[x]);
                }
            }
        }
        assert forall|k: int| 0 <= k < kept_s.len() implies sorted.contains(#[trigger] kept_s[k]) by {
            lemma_order_covers(order@, kept_s.len() as int, k);
            let q = choose|q: int| 0 <= q < order@.len() && order@[q] == k as usize;
            assert(sorted[q] == kept_s[k]);
        }
        assert forall|k: int| 0 <= k < r@.len() implies kept_s.contains(#[trigger] r@[k]) by {
            assert(r@[k] == sorted[200 + k]);
            assert(kept_s[order@[200 + k] as int] == r@[k]);
        }
        assert forall|a: int, b: int| 0 <= a < r@.len() && 0 <= b < r@.len() && a != b implies r@[a] != r@[b] by {
            assert(r@[a] == sorted[200 + a]);
            assert(r@[b] == sorted[200 + b]);
        }
        assert forall|a: int, b: int| 0 <= a < b < r@.len() implies newer_log(modified@, #[trigger] r@[a] as int, #[trigger] r@[b] as int) by {
            assert(r@[a] == sorted[200 + a]);
            assert(r@[b] == sorted[200 + b]);
        }
        assert forall|i: usize, k: int| #![trigger kept_s.contains(i), r@[k]] kept_s.contains(i) && !r@.contains(i) && 0 <= k < r@.len() implies newer_log(modified@, i as int, r@[k] as int) by {
            let x = choose|x: int| 0 <= x < kept_s.len() && kept_s[x] == i;
            assert(sorted.contains(kept_s[x]));
            let q = choose|q: int| 0 <= q < sorted.len() && sorted[q] == i;
            if q >= 200 {
                assert(r@[q - 200] == i);
                assert(false);
            }
            assert(r@[k] == sorted[200 + k]);
        }
    }
    r
}

proof fn lemma_order_covers(order: Seq<usize>, n: int, k: int)
    requires
        order.len() == n,
        n <= usize::MAX,
        0 <= k < n,
        forall|i: int| 0 <= i < order.len() ==> (#[trigger] order[i]) < n,
        order.no_duplicates(),
    ensures
        order.contains(k as usize),
{
    let s = order.to_set();
    order.unique_seq_to_set();
    assert(s.len() == n);
    let full = Set::new(|x: usize| (x as int) < n);
    assert(s.subset_of(full));
    lemma_small_set_full(n);
    if !order.contains(k as usize) {
        assert(!s.contains(k as usize));
        assert(s.subset_of(full.remove(k as usize)));
        vstd::set_lib::lemma_len_subset(s, full.remove(k as usize));
    }
}

proof fn lemma_small_set_full(n: int)
    requires
        0 <= n,
        n <= usize::MAX + 1,
    ensures
        Set::new(|x: usize| (x as int) < n).finite(),
        Set::new(|x: usize| (x as int) < n).len() == n,
    decreases n,
{
    let full = Set::new(|x: usize| (x as int) < n);
    if n == 0 {
        assert(full =~= Set::<usize>::empty());
    } else {
        lemma_small_set_full(n - 1);
        let smaller = Set::new(|x: usize| (x as int) < n - 1);
        assert(full =~= smaller.insert((n - 1) as usize));
    }
}

/// The prefix and suffix that the rotated copies of a log named `stem.ext`
/// carry: `stem.` and `.ext`.
pub open spec fn rotation_prefix(stem: Seq<char>) -> Seq<char> {
    stem + "."@
}

pub open spec fn rotation_suffix(ext: Seq<char>) -> Seq<char> {
    "."@ + ext
}

/// Whether a file of the log's directory is a rotated copy: it starts with
/// the prefix and ends with the suffix.
pub open spec fn is_rotation_candidate(name: Seq<char>, prefix: Seq<char>, suffix: Seq<char>) -> bool {
    starts_with(name, prefix) && ends_with(name, suffix)
}

/// What lies between the prefix and the suffix: the copy's number.
pub open spec fn rotation_ordinal(name: Seq<char>, prefix: Seq<char>, suffix: Seq<char>) -> Seq<char> {
    name.subrange(prefix.len() as int, name.len() - suffix.len())
}

pub open spec fn usize_value(s: Seq<char>) -> Option<nat> {
    parse_unsigned(s, usize::MAX as nat + 1)
}

/// The rotated copies among the first `n` names: the number of each and its
/// place in the listing.
pub open spec fn rotated_logs(names: Seq<Seq<char>>, prefix: Seq<char>, suffix: Seq<char>, n: int) -> Seq<(nat, int)>
    decreases n,
{
    if n <= 0 {
        Seq::<(nat, int)>::empty()
    } else {
        let init = rotated_logs(names, prefix, suffix, n - 1);
        let e = names[n - 1];
        if is_rotation_candidate(e, prefix, suffix) && usize_value(rotation_ordinal(e, prefix, suffix)) is Some {
            init.push((usize_value(rotation_ordinal(e, prefix, suffix)).unwrap(), n - 1))
        } else {
            init
        }
    }
}

/// The name of copy number `index` of the log `stem.ext`.
pub open spec fn rotation_target(stem: Seq<char>, ext: Seq<char>, index: nat) -> Seq<char> {
    stem + "."@ + decimal(index) + "."@ + ext
}

/// Whether rotating would stop the application: a file that starts with the
/// prefix and ends with the suffix where the two overlap (the log itself is
/// one), or a copy whose number cannot grow.
pub open spec fn rotation_panics(size: u64, file_name: Option<Seq<char>>, names: Seq<Seq<char>>) -> bool {
    size >= LOG_MAX_BYTES && match file_name {
        None => false,
        Some(f) => match last_index_of(f, '.') {
            None => false,
            Some(d) => {
                let prefix = rotation_prefix(f.take(d));
                let suffix = rotation_suffix(f.skip(d + 1));
                ||| exists|i: int| 0 <= i < names.len() && is_rotation_candidate(#[trigger] names[i], prefix, suffix)
                    && names[i].len() < prefix.len() + suffix.len()
                ||| exists|k: int| 0 <= k < rotated_logs(names, prefix, suffix, names.len() as int).len()
                    && (#[trigger] rotated_logs(names, prefix, suffix, names.len() as int)[k]).0 == usize::MAX
            },
        },
    }
}

/// The renames that rotate a log `file_name` of `size` bytes whose directory
/// holds `names`: nothing below the size limit or for a name without a dot;
/// otherwise every rotated copy moves up by one, highest number first (copies
/// with the same number in listing order), and the log becomes copy 1.
pub open spec fn rotation_plan(size: u64, file_name: Option<Seq<char>>, names: Seq<Seq<char>>) -> Seq<(Seq<char>, Seq<char>)> {
    if size < LOG_MAX_BYTES {
        Seq::empty()
    } else {
        match file_name {
            None => Seq::empty(),
            Some(f) => match last_index_of(f, '.') {
                None => Seq::empty(),
                Some(d) => {
                    let stem = f.take(d);
                    let ext = f.skip(d + 1);
                    let rot = rotated_logs(names, rotation_prefix(stem), rotation_suffix(ext), names.len() as int);
                    let order = stable_desc_order(rot.map_values(|x: (nat, int)| x.0 as i128), rot.len() as int);
                    Seq::new(order.len(), |k: int| (names[rot[order[k] as int].1], rotation_target(stem, ext, rot[order[k] as int].0 + 1)))
                        .push((f, rotation_target(stem, ext, 1)))
                },
            },
        }
    }
}

pub open spec fn name_views(v: Seq<String>) -> Seq<Seq<char>> {
    v.map_values(|s: String| s@)
}

pub open spec fn pair_views(v: Seq<(String, String)>) -> Seq<(Seq<char>, Seq<char>)> {
    v.map_values(|p: (String, String)| (p.0@, p.1@))
}

fn rotation_target_exec(stem: &[char], ext: &[char], index: usize) -> (r: String)
    ensures
        r@ == rotation_target(stem@, ext@, index as nat),
{
    let mut v: Vec<char> = Vec::new();
    push_chars(&mut v, stem);
    v.push('.');
    push_decimal(&mut v, index as u64);
    v.push('.');
    push_chars(&mut v, ext);
    proof {
        reveal_strlit(".");
        assert(v@ =~= rotation_target(stem@, ext@, index as nat));
    }
    string_of(v.as_slice())
}

/// The renames that rotate a full log (see `rotation_plan`); `names` are the
/// names of the files in the log's directory, in listing order.
pub fn rotate_if_needed(size: u64, file_name: Option<&str>, names: &Vec<String>) -> (r: Vec<(String, String)>)
    requires
        !rotation_panics(size, match file_name { Some(f) => Some(f@), None => None }, name_views(names@)),
    ensures
        pair_views(r@) == rotation_plan(size, match file_name { Some(f) => Some(f@), None => None }, name_views(names@)),
{
    let mut r: Vec<(String, String)> = Vec::new();
    let ghost fname = match file_name { Some(f) => Some(f@), None => None::<Seq<char>> };
    if size < LOG_MAX_BYTES {
        assert(pair_views(r@) =~= Seq::<(Seq<char>, Seq<char>)>::empty());
        return r;
    }
    let f = match file_name {
        Some(f) => chars_of(f),
        None => {
            assert(pair_views(r@) =~= Seq::<(Seq<char>, Seq<char>)>::empty());
            return r;
        },
    };
    let d = match last_index_of_chars(f.as_slice(), '.') {
        Some(d) => d,
        None => {
            assert(pair_views(r@) =~= Seq::<(Seq<char>, Seq<char>)>::empty());
            return r;
        },
    };
    proof {
        lemma_last_index_of(f@, '.');
    }
    assert(d < f.len());
    let stem = sub_chars(f.as_slice(), 0, d);
    let ext = sub_chars(f.as_slice(), d + 1, f.len());
    assert(stem@ == f@.take(d as int));
    assert(ext@ == f@.skip(d + 1));
    let mut prefix: Vec<char> = Vec::new();
    push_chars(&mut prefix, stem.as_slice());
    prefix.push('.');
    let mut suffix: Vec<char> = Vec::new();
    suffix.push('.');
    push_chars(&mut suffix, ext.as_slice());
    proof {
        reveal_strlit(".");
        assert(prefix@ =~= rotation_prefix(stem@));
        assert(suffix@ =~= rotation_suffix(ext@));
    }
    let ghost nv = name_views(names@);
    let ghost rot_all = rotated_logs(nv, prefix@, suffix@, nv.len() as int);
    // the rotated copies, with their numbers and places
    let mut numbers: Vec<usize> = Vec::new();
    let mut places: Vec<usize> = Vec::new();
    let mut i: usize = 0;
    while i < names.len()
        invariant
            i <= names.len(),
            nv == name_views(names@),
            numbers.len() == places.len(),
            forall|q: int| 0 <= q < places@.len() ==> (#[trigger] places@[q]) < i,
            prefix@ == rotation_prefix(stem@),
            suffix@ == rotation_suffix(ext@),
            stem@ == f@.take(d as int),
            ext@ == f@.skip(d + 1),
            last_index_of(f@, '.') == Some(d as int),
            size >= LOG_MAX_BYTES,
            fname == Some(f@),
            !rotation_panics(size, fname, nv),
            numbers@.len() == rotated_logs(nv, prefix@, suffix@, i as int).len(),
            forall|k: int| 0 <= k < numbers@.len() ==> (#[trigger] rotated_logs(nv, prefix@, suffix@, i as int)[k]) == (numbers@[k] as nat, places@[k] as int),
        decreases names.len() - i,
    {
        let e = chars_of(names[i].as_str());
        assert(nv[i as int] == e@);
        let ghost init = rotated_logs(nv, prefix@, suffix@, i as int);
        let cand = starts_with_chars(e.as_slice(), prefix.as_slice()) && ends_with_chars(e.as_slice(), suffix.as_slice());
        if cand {
            if e.len() < prefix.len() + suffix.len() {
                assert(rotation_panics(size, fname, nv));
            }
            let ord = sub_chars(e.as_slice(), prefix.len(), e.len() - suffix.len());
            match parse_u64_chars(ord.as_slice()) {
                Some(v) => {
                    if v as u128 <= usize::MAX as u128 {
                        numbers.push(v as usize);
                        places.push(i);
                        proof {
                            let cur = rotated_logs(nv, prefix@, suffix@, i + 1);
                            assert(cur == init.push((v as nat, i as int)));
                            assert forall|k: int| 0 <= k < numbers@.len() implies (#[trigger] rotated_logs(nv, prefix@, suffix@, i + 1)[k]) == (numbers@[k] as nat, places@[k] as int) by {
                                if k < init.len() {
                                    assert(cur[k] == init[k]);
                                }
                            }
                        }
                    } else {
                        assert(rotated_logs(nv, prefix@, suffix@, i + 1) == init);
                    }
                },
                None => {
                    assert(rotated_logs(nv, prefix@, suffix@, i + 1) == init);
                },
            }
        } else {
            assert(rotated_logs(nv, prefix@, suffix@, i + 1) == init);
        }
        i += 1;
    }
    let ghost rot = rotated_logs(nv, prefix@, suffix@, nv.len() as int);
    let mut keys: Vec<i128> = Vec::new();
    let mut j: usize = 0;
    while j < numbers.len()
        invariant
            j <= numbers.len(),
            keys.len() == j,
            forall|k: int| 0 <= k < j ==> keys@[k] == numbers@[k] as i128,
        decreases numbers.len() - j,
    {
        keys.push(numbers[j] as i128);
        j += 1;
    }
    assert(keys@ =~= rot.map_values(|x: (nat, int)| x.0 as i128));
    let order = stable_order_desc(&keys);
    let mut k: usize = 0;
    while k < order.len()
        invariant
            k <= order.len(),
            order.len() == numbers.len(),
            numbers.len() == places.len(),
            places.len() == rot.len(),
            forall|q: int| 0 <= q < order.len() ==> (#[trigger] order@[q]) < numbers.len(),
            forall|q: int| 0 <= q < numbers@.len() ==> (#[trigger] rot[q]) == (numbers@[q] as nat, places@[q] as int),
            forall|q: int| 0 <= q < places@.len() ==> (#[trigger] places@[q]) < names.len(),
            forall|q: int| 0 <= q < rot.len() ==> (#[trigger] rot[q]).0 < usize::MAX,
            nv == name_views(names@),
            pair_views(r@) == Seq::new(k as nat, |q: int| (nv[rot[order@[q] as int].1], rotation_target(stem@, ext@, rot[order@[q] as int].0 + 1))),
        decreases order.len() - k,
    {
        let o = order[k];
        assert(rot[o as int] == (numbers@[o as int] as nat, places@[o as int] as int));
        assert(places@[o as int] < names.len());
        let from = names[places[o]].clone();
        assert(nv[places@[o as int] as int] == from@);
        let to = rotation_target_exec(stem.as_slice(), ext.as_slice(), numbers[o] + 1);
        let ghost before = pair_views(r@);
        r.push((from, to));
        assert(pair_views(r@) == before.push((from@, to@)));
        k += 1;
        assert(pair_views(r@) =~= Seq::new(k as nat, |q: int| (nv[rot[order@[q] as int].1], rotation_target(stem@, ext@, rot[order@[q] as int].0 + 1))));
    }
    let first = rotation_target_exec(stem.as_slice(), ext.as_slice(), 1);
    r.push((string_of(f.as_slice()), first));
    assert(pair_views(r@) =~= rotation_plan(size, fname, nv));
    r
}

proof fn lemma_rotated_logs(names: Seq<Seq<char>>, prefix: Seq<char>, suffix: Seq<char>, n: int)
    requires
        0 <= n <= names.len(),
    ensures
        rotated_logs(names, prefix, suffix, n).len() <= n,
        forall|k: int| 0 <= k < rotated_logs(names, prefix, suffix, n).len() ==> {
            let x = #[trigger] rotated_logs(names, prefix, suffix, n)[k];
            &&& 0 <= x.1 < n
            &&& is_rotation_candidate(names[x.1], prefix, suffix)
            &&& usize_value(rotation_ordinal(names[x.1], prefix, suffix)) == Some(x.0)
        },
    decreases n,
{
    if n > 0 {
        lemma_rotated_logs(names, prefix, suffix, n - 1);
        let init = rotated_logs(names, prefix, suffix, n - 1);
        let cur = rotated_logs(names, prefix, suffix, n);
        assert forall|k: int| 0 <= k < cur.len() implies {
            let x = #[trigger] cur[k];
            &&& 0 <= x.1 < n
            &&& is_rotation_candidate(names[x.1], prefix, suffix)
            &&& usize_value(rotation_ordinal(names[x.1], prefix, suffix)) == Some(x.0)
        } by {
            if k < init.len() {
                assert(cur[k] == init[k]);
            }
        }
    }
}

/// Law: rotating never overwrites a file that still has to move. Each rename
/// of the plan targets a name that no later rename takes as its source, so
/// every rotated copy (and finally the log itself) moves before anything is
/// renamed onto it.
pub proof fn law_rotation_moves_before_overwriting(size: u64, file_name: Seq<char>, names: Seq<Seq<char>>)
    requires
        names.len() <= usize::MAX,
    ensures
        forall|k: int, j: int|
            0 <= k < j < rotation_plan(size, Some(file_name), names).len() ==> (#[trigger] rotation_plan(
                size,
                Some(file_name),
                names,
            )[k]).1 != (#[trigger] rotation_plan(size, Some(file_name), names)[j]).0,
{
    let plan = rotation_plan(size, Some(file_name), names);
    if size >= LOG_MAX_BYTES {
        lemma_last_index_of(file_name, '.');
        match last_index_of(file_name, '.') {
            None => {},
            Some(d) => {
                let stem = file_name.take(d);
                let ext = file_name.skip(d + 1);
                let prefix = rotation_prefix(stem);
                let suffix = rotation_suffix(ext);
                let rot = rotated_logs(names, prefix, suffix, names.len() as int);
                let keys = rot.map_values(|x: (nat, int)| x.0 as i128);
                let order = stable_desc_order(keys, rot.len() as int);
                lemma_rotated_logs(names, prefix, suffix, names.len() as int);
                lemma_stable_desc_order(keys, rot.len() as int);
                let m = order.len() as int;
                reveal_strlit(".");
                assert forall|k: int, j: int| 0 <= k < j < plan.len() implies (#[trigger] plan[k]).1 != (#[trigger] plan[j]).0 by {
                    let ok = order[k] as int;
                    let ik = rot[ok].0;
                    assert(plan[k].1 == rotation_target(stem, ext, ik + 1));
                    lemma_decimal_roundtrip(ik + 1);
                    let t = rotation_target(stem, ext, ik + 1);
                    if j == m {
                        assert(plan[j].0 == file_name);
                        assert(t.len() > file_name.len());
                    } else {
                        let oj = order[j] as int;
                        let ij = rot[oj].0;
                        let e = names[rot[oj].1];
                        assert(plan[j].0 == e);
                        if t == e {
                            let mid = decimal(ik + 1);
                            assert(t == prefix + mid + suffix);
                            assert(rotation_ordinal(e, prefix, suffix) =~= mid);
                            lemma_parse_decimal(ik + 1, usize::MAX as nat + 1);
                            assert(ij == ik + 1);
                            assert(comes_before(keys, ok, oj));
                            assert(keys[ok] == ik as i128);
                            assert(keys[oj] == ij as i128);
                        }
                    }
                }
            },
        }
    }
}

/// `paths` without the entries equal to `root`.
pub open spec fn without_root(paths: Seq<Seq<char>>, root: Seq<char>) -> Seq<Seq<char>>
    decreases paths.len(),
{
    if paths.len() == 0 {
        paths
    } else {
        let init = without_root(paths.drop_last(), root);
        if paths.last() == root { init } else { init.push(paths.last()) }
    }
}

/// The directories of a log namespace in the order in which they are removed
/// when empty: deepest first (directories of equal depth in listing order),
/// the root itself left out. Each directory comes with its depth, the number
/// of its path components.
pub open spec fn prune_order(dirs: Seq<(Seq<char>, u64)>, root: Seq<char>) -> Seq<Seq<char>> {
    let order = stable_desc_order(dirs.map_values(|d: (Seq<char>, u64)| d.1 as i128), dirs.len() as int);
    without_root(order.map_values(|i: usize| dirs[i as int].0), root)
}

pub open spec fn dir_views(v: Seq<(String, u64)>) -> Seq<(Seq<char>, u64)> {
    v.map_values(|d: (String, u64)| (d.0@, d.1))
}

/// The order in which `prune_empty_dirs` tries to remove the directories under
/// `root` (see `prune_order`).
pub fn prune_empty_dirs(dirs: &Vec<(String, u64)>, root: &str) -> (r: Vec<String>)
    ensures
        name_views(r@) == prune_order(dir_views(dirs@), root@),
{
    let mut keys: Vec<i128> = Vec::new();
    let mut j: usize = 0;
    while j < dirs.len()
        invariant
            j <= dirs.len(),
            keys.len() == j,
            forall|k: int| 0 <= k < j ==> keys@[k] == dirs@[k].1 as i128,
        decreases dirs.len() - j,
    {
        keys.push(dirs[j].1 as i128);
        j += 1;
    }
    assert(keys@ =~= dir_views(dirs@).map_values(|d: (Seq<char>, u64)| d.1 as i128));
    let order = stable_order_desc(&keys);
    let ghost listed = order@.map_values(|i: usize| dir_views(dirs@)[i as int].0);
    let mut r: Vec<String> = Vec::new();
    let mut k: usize = 0;
    while k < order.len()
        invariant
            k <= order.len(),
            order.len() == dirs.len(),
            forall|q: int| 0 <= q < order.len() ==> (#[trigger] order@[q]) < dirs.len(),
            listed == order@.map_values(|i: usize| dir_views(dirs@)[i as int].0),
            name_views(r@) == without_root(listed.take(k as int), root@),
        decreases order.len() - k,
    {
        let d = &dirs[order[k]].0;
        assert(listed.take(k + 1).drop_last() == listed.take(k as int));
        assert(listed.take(k + 1).last() == d@);
        if !str_eq(d.as_str(), root) {
            let ghost before = name_views(r@);
            r.push(d.clone());
            assert(name_views(r@) == before.push(d@));
        }
        k += 1;
    }
    assert(listed.take(k as int) == listed);
    r
}

} // verus!
