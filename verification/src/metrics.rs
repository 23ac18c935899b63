use vstd::prelude::*;

use crate::chars::{chars_of, contains_word, has_word, lower_chars, lowered};

verus! {

/// A running process as the process panel lists it.
#[derive(Debug, Clone)]
pub struct ProcessInfo {
    pub pid: u32,
    pub name: String,
    pub memory_bytes: u64,
}

/// One sample of the machine's state. `F` is the type of the load and
/// temperature readings (percentages and degrees Celsius).
#[derive(Debug, Clone)]
pub struct Metrics<F> {
    pub cpu: F,
    pub cores: Vec<F>,
    pub cpu_temp_c: Option<F>,
    pub memory: F,
    pub used_memory: u64,
    pub total_memory: u64,
    pub processes: Vec<ProcessInfo>,
}

/// Requests the display sends to the sampler.
#[derive(Debug, Clone, Copy, PartialEq, Eq, Structural)]
pub enum SamplerCommand {
    /// Sample every so many milliseconds from now on.
    SetInterval(u64),
}

/// Number of processes the sampler keeps.
pub const PROCESS_LIMIT: usize = 128;

/// `a` comes strictly before `b` in the code-point order of strings (which
/// is the byte order of their UTF-8 forms).
pub open spec fn lex_less(a: Seq<char>, b: Seq<char>) -> bool
    decreases a.len(),
{
    if a.len() == 0 {
        b.len() > 0
    } else if b.len() == 0 {
        false
    } else if (a[0] as u32) < (b[0] as u32) {
        true
    } else if a[0] == b[0] {
        lex_less(a.drop_first(), b.drop_first())
    } else {
        false
    }
}

/// `a` is listed before `b`: it uses more memory, or the same memory and its
/// name comes first.
pub open spec fn ranks_before(a: ProcessInfo, b: ProcessInfo) -> bool {
    a.memory_bytes > b.memory_bytes || (a.memory_bytes == b.memory_bytes && lex_less(
        a.name@,
        b.name@,
    ))
}

/// `x` placed into `s` just before the first process it ranks before.
pub open spec fn insert_ranked(s: Seq<ProcessInfo>, x: ProcessInfo) -> Seq<ProcessInfo>
    decreases s.len(),
{
    if s.len() == 0 {
        seq![x]
    } else if ranks_before(x, s[0]) {
        seq![x] + s
    } else {
        seq![s[0]] + insert_ranked(s.drop_first(), x)
    }
}

/// `s` in ranking order; processes that rank alike keep their order.
pub open spec fn rank_sorted(s: Seq<ProcessInfo>) -> Seq<ProcessInfo>
    decreases s.len(),
{
    if s.len() == 0 {
        Seq::empty()
    } else {
        insert_ranked(rank_sorted(s.drop_last()), s.last())
    }
}

/// The processes the panel shows: `processes` in ranking order, at most
/// `PROCESS_LIMIT` of them.
pub open spec fn top_processes(processes: Seq<ProcessInfo>) -> Seq<ProcessInfo> {
    let sorted = rank_sorted(processes);
    if sorted.len() <= PROCESS_LIMIT {
        sorted
    } else {
        sorted.subrange(0, PROCESS_LIMIT as int)
    }
}

/// No element of `s` ranks before an element that precedes it.
pub open spec fn is_ranked(s: Seq<ProcessInfo>) -> bool {
    forall|i: int, j: int| 0 <= i < j < s.len() ==> !ranks_before(#[trigger] s[j], #[trigger] s[i])
}

proof fn lemma_lex_irreflexive(a: Seq<char>)
    ensures
        !lex_less(a, a),
    decreases a.len(),
{
    if a.len() > 0 {
        lemma_lex_irreflexive(a.drop_first());
    }
}

proof fn lemma_lex_transitive(a: Seq<char>, b: Seq<char>, c: Seq<char>)
    requires
        lex_less(a, b),
        lex_less(b, c),
    ensures
        lex_less(a, c),
    decreases a.len(),
{
    if a.len() > 0 && b.len() > 0 && c.len() > 0 && a[0] == b[0] && b[0] == c[0] {
        lemma_lex_transitive(a.drop_first(), b.drop_first(), c.drop_first());
    }
}

proof fn lemma_lex_total(a: Seq<char>, b: Seq<char>)
    ensures
        lex_less(a, b) || lex_less(b, a) || a == b,
    decreases a.len(),
{
    if a.len() > 0 && b.len() > 0 {
        if a[0] == b[0] {
            lemma_lex_total(a.drop_first(), b.drop_first());
            if a.drop_first() == b.drop_first() {
                assert(a =~= seq![a[0]] + a.drop_first());
                assert(b =~= seq![b[0]] + b.drop_first());
            }
        } else {
            assert((a[0] as u32) != (b[0] as u32)) by {
                vstd::utf8::char_u32_cast(a[0], a[0] as u32);
                vstd::utf8::char_u32_cast(b[0], b[0] as u32);
            }
        }
    } else if a.len() == 0 && b.len() == 0 {
        assert(a =~= b);
    }
}

proof fn lemma_ranks_before_transitive(a: ProcessInfo, b: ProcessInfo, c: ProcessInfo)
    requires
        ranks_before(a, b),
        ranks_before(b, c),
    ensures
        ranks_before(a, c),
{
    if a.memory_bytes == b.memory_bytes && b.memory_bytes == c.memory_bytes {
        lemma_lex_transitive(a.name@, b.name@, c.name@);
    }
}

proof fn lemma_ranks_before_asymmetric(a: ProcessInfo, b: ProcessInfo)
    ensures
        !(ranks_before(a, b) && ranks_before(b, a)),
{
    if ranks_before(a, b) && ranks_before(b, a) {
        lemma_lex_transitive(a.name@, b.name@, a.name@);
        lemma_lex_irreflexive(a.name@);
    }
}

/// `!ranks_before` is transitive: ranking alike or after is preserved along chains.
proof fn lemma_insert_ranked_at(s: Seq<ProcessInfo>, x: ProcessInfo, pos: int)
    requires
        0 <= pos <= s.len(),
        forall|k: int| 0 <= k < pos ==> !ranks_before(x, #[trigger] s[k]),
        pos == s.len() || ranks_before(x, s[pos]),
    ensures
        insert_ranked(s, x) == s.insert(pos, x),
    decreases s.len(),
{
    if s.len() == 0 {
        assert(s.insert(pos, x) =~= seq![x]);
    } else if pos == 0 {
        assert(s.insert(pos, x) =~= seq![x] + s);
    } else {
        let t = s.drop_first();
        assert forall|k: int| 0 <= k < pos - 1 implies !ranks_before(x, #[trigger] t[k]) by {
            assert(t[k] == s[k + 1]);
        }
        lemma_insert_ranked_at(t, x, pos - 1);
        assert(s.insert(pos, x) =~= seq![s[0]] + t.insert(pos - 1, x));
    }
}

proof fn lemma_insert_ranked_props(s: Seq<ProcessInfo>, x: ProcessInfo)
    requires
        is_ranked(s),
    ensures
        is_ranked(insert_ranked(s, x)),
        insert_ranked(s, x).to_multiset() == s.to_multiset().insert(x),
    decreases s.len(),
{
    broadcast use vstd::seq_lib::group_seq_properties;
    if s.len() == 0 {
        assert(s =~= Seq::<ProcessInfo>::empty());
        assert(seq![x] =~= Seq::<ProcessInfo>::empty().push(x));
    } else if ranks_before(x, s[0]) {
        let r = seq![x] + s;
        assert forall|i: int, j: int| 0 <= i < j < r.len() implies !ranks_before(#[trigger] r[j], #[trigger] r[i]) by {
            if i == 0 {
                lemma_ranks_before_asymmetric(x, s[0]);
                if j > 1 {
                    assert(!ranks_before(s[j - 1], s[0]));
                    if ranks_before(s[j - 1], x) {
                        lemma_ranks_before_transitive(s[j - 1], x, s[0]);
                    }
                }
            } else {
                assert(r[i] == s[i - 1] && r[j] == s[j - 1]);
            }
        }
        broadcast use vstd::seq_lib::group_seq_properties;
        vstd::seq_lib::lemma_multiset_commutative(seq![x], s);
        assert(seq![x] =~= Seq::<ProcessInfo>::empty().push(x));
    } else {
        let t = s.drop_first();
        assert(is_ranked(t)) by {
            assert forall|i: int, j: int| 0 <= i < j < t.len() implies !ranks_before(#[trigger] t[j], #[trigger] t[i]) by {
                assert(t[i] == s[i + 1] && t[j] == s[j + 1]);
            }
        }
        lemma_insert_ranked_props(t, x);
        let rest = insert_ranked(t, x);
        let r = seq![s[0]] + rest;
        assert forall|i: int, j: int| 0 <= i < j < r.len() implies !ranks_before(#[trigger] r[j], #[trigger] r[i]) by {
            if i == 0 {
                assert(rest.to_multiset().count(r[j]) > 0) by {
                    assert(rest[j - 1] == r[j]);
                    broadcast use vstd::seq_lib::group_seq_properties;
                    assert(rest.contains(r[j]));
                }
                broadcast use vstd::seq_lib::group_seq_properties;
                assert(t.to_multiset().insert(x).count(r[j]) > 0);
                if r[j] != x {
                    assert(t.to_multiset().count(r[j]) > 0);
                    assert(t.contains(r[j]));
                    let k = choose|k: int| 0 <= k < t.len() && t[k] == r[j];
                    assert(s[k + 1] == r[j]);
                }
            } else {
                assert(r[i] == rest[i - 1] && r[j] == rest[j - 1]);
            }
        }
        broadcast use vstd::seq_lib::group_seq_properties;
        vstd::seq_lib::lemma_multiset_commutative(seq![s[0]], rest);
        vstd::seq_lib::lemma_multiset_commutative(seq![s[0]], t);
        assert(s =~= seq![s[0]] + t);
    }
}

/// The ranking lists processes in order (none ranks before one listed
/// earlier) and lists each given process exactly as often as it was given.
pub proof fn lemma_rank_sorted_is_ordered_permutation(s: Seq<ProcessInfo>)
    ensures
        is_ranked(rank_sorted(s)),
        rank_sorted(s).to_multiset() == s.to_multiset(),
    decreases s.len(),
{
    broadcast use vstd::seq_lib::group_seq_properties;
    if s.len() > 0 {
        let prev = s.drop_last();
        lemma_rank_sorted_is_ordered_permutation(prev);
        lemma_insert_ranked_props(rank_sorted(prev), s.last());
        assert(s =~= prev.push(s.last()));
    }
}

/// The processes of `s` are listed by memory use, the full 64-bit byte
/// counts compared, largest first; processes using the same memory come in
/// code-point order of their names.
pub open spec fn listed_by_memory(s: Seq<ProcessInfo>) -> bool {
    forall|i: int, j: int|
        0 <= i < j < s.len() ==> (#[trigger] s[i]).memory_bytes >= (#[trigger] s[j]).memory_bytes && (
        s[i].memory_bytes == s[j].memory_bytes ==> !lex_less(s[j].name@, s[i].name@))
}

proof fn lemma_take_submultiset(s: Seq<ProcessInfo>, n: int)
    requires
        0 <= n <= s.len(),
    ensures
        s.take(n).to_multiset().subset_of(s.to_multiset()),
{
    broadcast use vstd::seq_lib::group_seq_properties;
    assert(s =~= s.take(n) + s.skip(n));
    vstd::seq_lib::lemma_multiset_commutative(s.take(n), s.skip(n));
}

/// The process list shown is the start of a reordering of all processes
/// that lists them by memory use, largest first (ties by name): it holds
/// the `PROCESS_LIMIT` heaviest processes, or all of them when there are
/// fewer, and no process left out uses more memory than one shown.
pub proof fn lemma_top_processes_by_memory(s: Seq<ProcessInfo>)
    ensures
        rank_sorted(s).to_multiset() == s.to_multiset(),
        listed_by_memory(rank_sorted(s)),
        listed_by_memory(top_processes(s)),
        top_processes(s) == rank_sorted(s).take(top_processes(s).len() as int),
        top_processes(s).len() == (if s.len() <= PROCESS_LIMIT { s.len() } else { PROCESS_LIMIT as nat }),
        forall|i: int, j: int|
            0 <= i < top_processes(s).len() <= j < s.len() ==> (#[trigger] rank_sorted(s)[i]).memory_bytes
                >= (#[trigger] rank_sorted(s)[j]).memory_bytes,
{
    lemma_rank_sorted_is_ordered_permutation(s);
    let full = rank_sorted(s);
    assert(full.len() == s.len()) by {
        vstd::seq_lib::to_multiset_len(full);
        vstd::seq_lib::to_multiset_len(s);
    }
    assert(listed_by_memory(full)) by {
        assert forall|i: int, j: int| 0 <= i < j < full.len() implies (#[trigger] full[i]).memory_bytes
            >= (#[trigger] full[j]).memory_bytes && (full[i].memory_bytes == full[j].memory_bytes ==> !lex_less(
            full[j].name@,
            full[i].name@,
        )) by {
            assert(!ranks_before(full[j], full[i]));
        }
    }
    assert(top_processes(s) =~= full.take(top_processes(s).len() as int));
}

fn name_less(a: &[char], b: &[char]) -> (r: bool)
    ensures
        r == lex_less(a@, b@),
{
    let mut i: usize = 0;
    assert(a@.skip(0) =~= a@);
    assert(b@.skip(0) =~= b@);
    while i < a.len() && i < b.len() && a[i] == b[i]
        invariant
            i <= a@.len(),
            i <= b@.len(),
            lex_less(a@, b@) == lex_less(a@.skip(i as int), b@.skip(i as int)),
        decreases a@.len() - i,
    {
        assert(a@.skip(i as int).drop_first() =~= a@.skip(i + 1));
        assert(b@.skip(i as int).drop_first() =~= b@.skip(i + 1));
        i = i + 1;
    }
    if i == a.len() {
        i < b.len()
    } else if i == b.len() {
        false
    } else {
        (a[i] as u32) < (b[i] as u32)
    }
}

fn before(a: &ProcessInfo, a_name: &[char], b: &ProcessInfo, b_name: &[char]) -> (r: bool)
    requires
        a_name@ == a.name@,
        b_name@ == b.name@,
    ensures
        r == ranks_before(*a, *b),
{
    a.memory_bytes > b.memory_bytes || (a.memory_bytes == b.memory_bytes && name_less(a_name, b_name))
}

/// The processes to list, ranked by memory use (largest first) and then by
/// name, cut to the first `PROCESS_LIMIT`.
pub fn rank_processes(processes: &Vec<ProcessInfo>) -> (r: Vec<ProcessInfo>)
    ensures
        r@ == top_processes(processes@),
        listed_by_memory(r@),
        r@.len() == (if processes@.len() <= PROCESS_LIMIT { processes@.len() } else { PROCESS_LIMIT as nat }),
        r@.to_multiset().subset_of(processes@.to_multiset()),
{
    let n = processes.len();
    let mut ranked: Vec<ProcessInfo> = Vec::new();
    let mut names: Vec<Vec<char>> = Vec::new();
    let mut i: usize = 0;
    while i < n
        invariant
            n == processes@.len(),
            i <= n,
            ranked@ == rank_sorted(processes@.subrange(0, i as int)),
            names@.len() == ranked@.len(),
            forall|k: int| 0 <= k < names@.len() ==> #[trigger] names@[k]@ == ranked@[k].name@,
        decreases n - i,
    {
        let p = &processes[i];
        let item = ProcessInfo { pid: p.pid, name: p.name.clone(), memory_bytes: p.memory_bytes };
        let item_name = chars_of(item.name.as_str());
        let mut pos: usize = 0;
        while pos < ranked.len() && !before(&item, item_name.as_slice(), &ranked[pos], names[pos].as_slice())
            invariant
                pos <= ranked@.len(),
                names@.len() == ranked@.len(),
                item_name@ == item.name@,
                forall|k: int| 0 <= k < names@.len() ==> #[trigger] names@[k]@ == ranked@[k].name@,
                forall|k: int| 0 <= k < pos ==> !ranks_before(item, #[trigger] ranked@[k]),
            decreases ranked@.len() - pos,
        {
            pos = pos + 1;
        }
        proof {
            lemma_insert_ranked_at(ranked@, item, pos as int);
            let prefix = processes@.subrange(0, i + 1);
            assert(prefix.drop_last() =~= processes@.subrange(0, i as int));
            assert(item == processes@[i as int]);
        }
        let ghost names_before = names@;
        let ghost ranked_before = ranked@;
        ranked.insert(pos, item);
        names.insert(pos, item_name);
        assert forall|k: int| 0 <= k < names@.len() implies #[trigger] names@[k]@ == ranked@[k].name@ by {
            if k > pos {
                assert(names@[k] == names_before[k - 1]);
                assert(ranked@[k] == ranked_before[k - 1]);
            } else if k < pos {
                assert(names@[k] == names_before[k]);
                assert(ranked@[k] == ranked_before[k]);
            }
        }
        i = i + 1;
    }
    assert(processes@.subrange(0, n as int) =~= processes@);
    ranked.truncate(PROCESS_LIMIT);
    proof {
        lemma_top_processes_by_memory(processes@);
        lemma_take_submultiset(rank_sorted(processes@), ranked@.len() as int);
    }
    ranked
}

/// A temperature sensor whose label names the CPU or the CPU package.
pub open spec fn is_cpu_sensor(label: Seq<char>) -> bool {
    contains_word(lower_chars(label), "cpu"@) || contains_word(lower_chars(label), "package"@)
}

/// Whether the sensor labelled `label` measures the CPU: its label holds
/// `cpu` or `package`, in any ASCII case.
pub fn is_cpu_sensor_label(label: &str) -> (r: bool)
    ensures
        r == is_cpu_sensor(label@),
{
    let lower = lowered(label);
    let cpu = chars_of("cpu");
    let package = chars_of("package");
    has_word(lower.as_slice(), cpu.as_slice()) || has_word(lower.as_slice(), package.as_slice())
}

/// How often the sampler re-reads the process list, in nanoseconds.
pub const PROCESS_REFRESH_NANOS: u64 = 1_000_000_000;

/// Whether the sampler re-reads the process list in this round, given how
/// long ago it last did (`None` before the first time): at once, and then
/// once `PROCESS_REFRESH_NANOS` have passed.
pub fn processes_due(since_last_refresh_nanos: Option<u64>) -> (r: bool)
    ensures
        r == match since_last_refresh_nanos {
            None => true,
            Some(d) => d >= PROCESS_REFRESH_NANOS,
        },
{
    match since_last_refresh_nanos {
        None => true,
        Some(d) => d >= PROCESS_REFRESH_NANOS,
    }
}

/// How long the sampler sleeps after a round that took `elapsed_nanos`, so
/// that rounds start `interval_nanos` apart: the rest of the interval, or
/// nothing when the round took the whole interval or longer.
pub fn sleep_after_round(interval_nanos: u64, elapsed_nanos: u64) -> (r: u64)
    ensures
        r == (if elapsed_nanos < interval_nanos {
            (interval_nanos - elapsed_nanos) as u64
        } else {
            0
        }),
{
    if elapsed_nanos < interval_nanos {
        interval_nanos - elapsed_nanos
    } else {
        0
    }
}

} // verus!
