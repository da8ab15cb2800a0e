//! The metadata cache: a table from process id to process record,
//! wholly replaced by each bulk refresh and point-updated on demand.

use std::collections::HashMap;
use vstd::prelude::*;

use crate::parser::{parse_ps_chars, ps_ok, spec_ps_record};
use crate::record::{ProcessRecord, ProcessRecordV};
use crate::text::{push_all, str_chars, sub_chars, u32_dec_chars, chars_to_string, spec_u32_dec};

verus! {

broadcast use vstd::std_specs::hash::group_hash_axioms;

/// The mathematical contents of the cache table.
pub open spec fn map_view(m: Map<u32, ProcessRecord>) -> Map<u32, ProcessRecordV> {
    Map::new(|k: u32| m.dom().contains(k), |k: u32| m[k]@)
}

/// First position at or after `from` holding a newline, else the length.
pub open spec fn line_break(s: Seq<char>, from: int) -> int
    decreases s.len() - from,
{
    if 0 <= from && from < s.len() {
        if s[from] == '\n' {
            from
        } else {
            line_break(s, from + 1)
        }
    } else {
        s.len() as int
    }
}

/// The parsed rows of the text from `from` on, one candidate row per
/// newline-separated segment, in order.
pub open spec fn entries_from(s: Seq<char>, from: int) -> Seq<(u32, ProcessRecordV)>
    decreases s.len() - from,
{
    if 0 <= from && from <= s.len() {
        let e = line_break(s, from);
        let l = s.subrange(from, e);
        let cur: Seq<(u32, ProcessRecordV)> = if ps_ok(l) {
            seq![(spec_ps_record(l).pid, spec_ps_record(l))]
        } else {
            Seq::empty()
        };
        if from <= e && e < s.len() {
            cur + entries_from(s, e + 1)
        } else {
            cur
        }
    } else {
        Seq::empty()
    }
}

/// The table the rows denote: a later row with the same pid wins.
pub open spec fn fold_entries(l: Seq<(u32, ProcessRecordV)>) -> Map<u32, ProcessRecordV>
    decreases l.len(),
{
    if l.len() == 0 {
        Map::empty()
    } else {
        fold_entries(l.drop_last()).insert(l.last().0, l.last().1)
    }
}

/// The rows of a bulk listing: every segment after the first newline.
/// Text without a newline has no rows at all.
pub open spec fn spec_refresh_entries(s: Seq<char>) -> Seq<(u32, ProcessRecordV)> {
    let e0 = line_break(s, 0);
    if e0 < s.len() {
        entries_from(s, e0 + 1)
    } else {
        Seq::empty()
    }
}

/// The table one bulk listing denotes.
pub open spec fn spec_refresh_map(s: Seq<char>) -> Map<u32, ProcessRecordV> {
    fold_entries(spec_refresh_entries(s))
}

/// The pids the rows name.
pub open spec fn entry_pids(l: Seq<(u32, ProcessRecordV)>) -> Set<u32>
    decreases l.len(),
{
    if l.len() == 0 {
        Set::empty()
    } else {
        entry_pids(l.drop_last()).insert(l.last().0)
    }
}

/// A folded table holds exactly the pids its rows name.
pub proof fn lemma_fold_dom(l: Seq<(u32, ProcessRecordV)>)
    ensures
        fold_entries(l).dom() =~= entry_pids(l),
    decreases l.len(),
{
    if l.len() > 0 {
        lemma_fold_dom(l.drop_last());
    }
}

/// Refreshing is idempotent: the table a refresh leaves behind is a
/// function of the bulk listing alone, so two consecutive refreshes
/// from identical output leave identical contents.
pub proof fn lemma_refresh_deterministic(
    out: Seq<char>,
    m1: Map<u32, ProcessRecordV>,
    m2: Map<u32, ProcessRecordV>,
)
    requires
        m1 == spec_refresh_map(out),
        m2 == spec_refresh_map(out),
    ensures
        m1 == m2,
{
}

/// A pid that no row of the new listing names is absent after the
/// refresh: a refresh is a full snapshot, never a merge.
pub proof fn lemma_refresh_drops_absent(out: Seq<char>, pid: u32)
    requires
        !entry_pids(spec_refresh_entries(out)).contains(pid),
    ensures
        !spec_refresh_map(out).contains_key(pid),
{
    lemma_fold_dom(spec_refresh_entries(out));
}

/// The synthetic name used when no real one is known: `pid-<n>`.
pub open spec fn spec_placeholder(pid: u32) -> Seq<char> {
    "pid-"@ + spec_u32_dec(pid as int)
}

pub fn placeholder_name(pid: u32) -> (r: String)
    ensures
        r@ == spec_placeholder(pid),
{
    let mut v = str_chars("pid-");
    let d = u32_dec_chars(pid);
    push_all(&mut v, &d);
    chars_to_string(&v)
}

fn scan_line_break(v: &Vec<char>, from: usize) -> (e: usize)
    requires
        from <= v@.len(),
    ensures
        e as int == line_break(v@, from as int),
        from <= e <= v@.len(),
        e < v@.len() ==> v@[e as int] == '\n',
{
    let mut i: usize = from;
    while i < v.len()
        invariant
            from <= i <= v@.len(),
            line_break(v@, i as int) == line_break(v@, from as int),
        decreases v@.len() - i,
    {
        if v[i] == '\n' {
            return i;
        }
        assert(line_break(v@, i as int) == line_break(v@, i + 1));
        i = i + 1;
    }
    i
}

/// The views of gathered rows.
pub open spec fn entry_views(l: Seq<(u32, ProcessRecord)>) -> Seq<(u32, ProcessRecordV)> {
    l.map_values(|p: (u32, ProcessRecord)| (p.0, p.1@))
}

/// The cache: the table, the enable switch, and how to invoke the
/// external process-listing query (kept for the unverified edge).
pub struct ProcessRecords {
    pub records: HashMap<u32, ProcessRecord>,
    pub enabled: bool,
    pub adb_cmd: String,
}

impl Default for ProcessRecords {
    /// An empty, disabled cache with the conventional query command.
    fn default() -> (r: ProcessRecords)
        ensures
            map_view(r.records@) == Map::<u32, ProcessRecordV>::empty(),
            r.enabled == false,
            r.adb_cmd@ == "adb"@,
    {
        let r = ProcessRecords {
            records: HashMap::new(),
            enabled: false,
            adb_cmd: "adb".to_owned(),
        };
        assert(map_view(r.records@) =~= Map::<u32, ProcessRecordV>::empty());
        r
    }
}

impl ProcessRecords {
    /// The cached record of `pid`, if any.
    pub fn get_process_record_map(&self, pid: u32) -> (r: Option<ProcessRecord>)
        ensures
            (r is Some) == self.records@.contains_key(pid),
            r matches Some(rec) ==> rec@ == self.records@[pid]@,
    {
        match self.records.get(&pid) {
            Some(rec) => Some(rec.duplicate()),
            None => None,
        }
    }

    /// Whether resolving `pid` would need the external point query:
    /// never when the cache is disabled, and never on a cache hit.
    pub fn needs_point_query(&self, pid: u32) -> (r: bool)
        ensures
            r == (self.enabled && !self.records@.contains_key(pid)),
    {
        self.enabled && self.get_process_record_map(pid).is_none()
    }

    /// Resolves `pid` to a display name. Disabled: the synthetic
    /// placeholder, cache untouched. Hit: the cached name, untouched.
    /// Miss: `query` is the point-query outcome the caller obtained;
    /// a successful one is cached under `pid` and returned, a failed
    /// one yields the placeholder and caches nothing, so a later
    /// access retries.
    pub fn get_process_name(&mut self, pid: u32, query: Option<String>) -> (r: String)
        ensures
            !old(self).enabled ==> r@ == spec_placeholder(pid) && *final (self) == *old(self),
            old(self).enabled && old(self).records@.contains_key(pid) ==> r@ == old(
                self,
            ).records@[pid]@.name && *final (self) == *old(self),
            old(self).enabled && !old(self).records@.contains_key(pid) && query is None ==> r@
                == spec_placeholder(pid) && *final (self) == *old(self),
            old(self).enabled && !old(self).records@.contains_key(pid) ==> (query matches Some(c)
                ==> {
                &&& r@ == c@
                &&& final (self).enabled == old(self).enabled
                &&& final (self).adb_cmd == old(self).adb_cmd
                &&& final (self).records@.dom() =~= old(self).records@.dom().insert(pid)
                &&& final (self).records@[pid]@.name == c@
                &&& final (self).records@[pid]@.pid == pid
                &&& final (self).records@[pid]@.user == Seq::<char>::empty()
                &&& final (self).records@[pid]@.pc == Seq::<char>::empty()
                &&& final (self).records@[pid]@.ppid == 0u32
                &&& final (self).records@[pid]@.rss == 0u32
                &&& forall|k: u32|
                    k != pid && old(self).records@.contains_key(k) ==> (final (
                    self).records@.contains_key(k) && final (self).records@[k] == old(
                    self).records@[k])
            }),
    {
        if !self.enabled {
            return placeholder_name(pid);
        }
        match self.get_process_record_map(pid) {
            Some(rec) => rec.name,
            None => {
                match query {
                    Some(c) => {
                        let name_copy = c.clone();
                        let rec = ProcessRecord {
                            user: String::new(),
                            pid,
                            ppid: 0,
                            name: c,
                            rss: 0,
                            pc: String::new(),
                        };
                        self.records.insert(pid, rec);
                        name_copy
                    },
                    None => placeholder_name(pid),
                }
            },
        }
    }

    /// Replaces the whole table with what one bulk listing denotes:
    /// the first segment (the header row) is skipped, every later
    /// newline-separated segment is parsed, rows that do not parse are
    /// dropped, and stale entries vanish.
    pub fn apply_refresh(&mut self, output: &str)
        ensures
            map_view(final (self).records@) == spec_refresh_map(output@),
            final (self).enabled == old(self).enabled,
            final (self).adb_cmd == old(self).adb_cmd,
    {
        let v = str_chars(output);
        let ghost s = v@;
        let mut m: HashMap<u32, ProcessRecord> = HashMap::new();
        let e0 = scan_line_break(&v, 0);
        if e0 < v.len() {
            let ghost start: int = e0 + 1;
            let mut entries: Vec<(u32, ProcessRecord)> = Vec::new();
            let mut pos: usize = e0 + 1;
            loop
                invariant_except_break
                    0 < pos <= s.len(),
                    s == v@,
                    entry_views(entries@) + entries_from(s, pos as int) =~= entries_from(s, start),
                ensures
                    s == v@,
                    entry_views(entries@) =~= entries_from(s, start),
                decreases s.len() - pos,
            {
                let e = scan_line_break(&v, pos);
                let seg = sub_chars(&v, pos, e);
                let ghost l = s.subrange(pos as int, e as int);
                let ghost pre = entries@;
                match parse_ps_chars(&seg) {
                    Some(rec) => {
                        let key: u32 = rec.pid;
                        entries.push((key, rec));
                        assert(entry_views(entries@) =~= entry_views(pre) + seq![
                            (spec_ps_record(l).pid, spec_ps_record(l)),
                        ]);
                    },
                    None => {},
                }
                if e < v.len() {
                    assert(entries_from(s, pos as int) =~= (if ps_ok(l) {
                        seq![(spec_ps_record(l).pid, spec_ps_record(l))]
                    } else {
                        Seq::<(u32, ProcessRecordV)>::empty()
                    }) + entries_from(s, e + 1));
                    assert(entry_views(entries@) + entries_from(s, e + 1) =~= entries_from(
                        s,
                        start,
                    ));
                    pos = e + 1;
                } else {
                    assert(entries_from(s, pos as int) =~= (if ps_ok(l) {
                        seq![(spec_ps_record(l).pid, spec_ps_record(l))]
                    } else {
                        Seq::<(u32, ProcessRecordV)>::empty()
                    }));
                    assert(entry_views(entries@) =~= entries_from(s, start));
                    break ;
                }
            }
            let ghost evs = entry_views(entries@);
            let mut i: usize = 0;
            while i < entries.len()
                invariant
                    i <= entries@.len(),
                    evs == entry_views(entries@),
                    map_view(m@) =~= fold_entries(evs.subrange(0, i as int)),
                decreases entries@.len() - i,
            {
                let key: u32 = entries[i].0;
                let rec = entries[i].1.duplicate();
                let ghost mpre = m@;
                m.insert(key, rec);
                proof {
                    let t = evs.subrange(0, i + 1);
                    assert(t.drop_last() =~= evs.subrange(0, i as int));
                    assert(t.last() == evs[i as int]);
                    assert(map_view(m@) =~= fold_entries(evs.subrange(0, i as int)).insert(
                        key,
                        rec@,
                    ));
                }
                i = i + 1;
            }
            assert(evs.subrange(0, evs.len() as int) =~= evs);
            assert(spec_refresh_entries(s) == entries_from(s, start));
            assert(map_view(m@) =~= spec_refresh_map(s));
        } else {
            assert(spec_refresh_entries(s) =~= Seq::<(u32, ProcessRecordV)>::empty());
            assert(map_view(m@) =~= spec_refresh_map(s));
        }
        self.records = m;
    }
}

} // verus!
