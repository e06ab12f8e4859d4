//! Files of an album, collected until the whole album has arrived.
use vstd::prelude::*;
use crate::files::FileInfo;

verus! {

/// How long the bot waits for the rest of an album after one of its files, in milliseconds.
pub const ALBUM_WAIT_MS: u64 = 1500;

/// An album entry as a view: the group's identifier and its files in arrival order.
pub type EntryView = (Seq<char>, Seq<FileInfo>);

/// Some entry of `s` is for group `k`.
pub open spec fn has_group(s: Seq<EntryView>, k: Seq<char>) -> bool {
    exists|i: int| 0 <= i < s.len() && #[trigger] s[i].0 == k
}

/// No two entries of `s` are for the same group.
pub open spec fn groups_unique(s: Seq<EntryView>) -> bool {
    forall|i: int, j: int| 0 <= i < s.len() && 0 <= j < s.len() && i != j ==> #[trigger] s[i].0 != #[trigger] s[j].0
}

/// The entries of `s` as a map from group to files.
pub open spec fn entries_map(s: Seq<EntryView>) -> Map<Seq<char>, Seq<FileInfo>> {
    Map::new(
        |k: Seq<char>| has_group(s, k),
        |k: Seq<char>| s[choose|i: int| 0 <= i < s.len() && #[trigger] s[i].0 == k].1,
    )
}

proof fn lemma_entry_lookup(s: Seq<EntryView>, i: int)
    requires
        groups_unique(s),
        0 <= i < s.len(),
    ensures
        entries_map(s).contains_key(s[i].0),
        entries_map(s)[s[i].0] == s[i].1,
{
    assert(has_group(s, s[i].0));
    let j = choose|j: int| 0 <= j < s.len() && #[trigger] s[j].0 == s[i].0;
    assert(j == i);
}

proof fn lemma_entry_remove(s: Seq<EntryView>, i: int)
    requires
        groups_unique(s),
        0 <= i < s.len(),
    ensures
        groups_unique(s.remove(i)),
        entries_map(s.remove(i)) == entries_map(s).remove(s[i].0),
{
    let r = s.remove(i);
    assert forall|a: int, b: int|
        0 <= a < r.len() && 0 <= b < r.len() && a != b implies #[trigger] r[a].0 != #[trigger] r[b].0 by {
        let a2 = if a < i { a } else { a + 1 };
        let b2 = if b < i { b } else { b + 1 };
        assert(r[a] == s[a2]);
        assert(r[b] == s[b2]);
    }
    let m = entries_map(s).remove(s[i].0);
    assert forall|k: Seq<char>| #[trigger] entries_map(r).contains_key(k) == m.contains_key(k) by {
        if has_group(r, k) {
            let a = choose|a: int| 0 <= a < r.len() && #[trigger] r[a].0 == k;
            let a2 = if a < i { a } else { a + 1 };
            assert(r[a] == s[a2]);
            assert(has_group(s, k));
        }
        if m.contains_key(k) {
            let a = choose|a: int| 0 <= a < s.len() && #[trigger] s[a].0 == k;
            assert(a != i);
            let a2 = if a < i { a } else { a - 1 };
            assert(r[a2] == s[a]);
            assert(has_group(r, k));
        }
    }
    assert forall|k: Seq<char>| #[trigger] entries_map(r).contains_key(k) implies entries_map(r)[k]
        == m[k] by {
        let a = choose|a: int| 0 <= a < r.len() && #[trigger] r[a].0 == k;
        let a2 = if a < i { a } else { a + 1 };
        assert(r[a] == s[a2]);
        lemma_entry_lookup(r, a);
        lemma_entry_lookup(s, a2);
    }
    assert(entries_map(r) =~= m);
}

proof fn lemma_entry_push(s: Seq<EntryView>, e: EntryView)
    requires
        groups_unique(s),
        !has_group(s, e.0),
    ensures
        groups_unique(s.push(e)),
        entries_map(s.push(e)) == entries_map(s).insert(e.0, e.1),
{
    let p = s.push(e);
    assert forall|a: int, b: int|
        0 <= a < p.len() && 0 <= b < p.len() && a != b implies #[trigger] p[a].0 != #[trigger] p[b].0 by {
        if a == s.len() {
            assert(p[b] == s[b]);
        } else if b == s.len() {
            assert(p[a] == s[a]);
        } else {
            assert(p[a] == s[a] && p[b] == s[b]);
        }
    }
    let m = entries_map(s).insert(e.0, e.1);
    assert forall|k: Seq<char>| #[trigger] entries_map(p).contains_key(k) == m.contains_key(k) by {
        if has_group(p, k) && k != e.0 {
            let a = choose|a: int| 0 <= a < p.len() && #[trigger] p[a].0 == k;
            assert(p[a] == s[a]);
        }
        if has_group(s, k) {
            let a = choose|a: int| 0 <= a < s.len() && #[trigger] s[a].0 == k;
            assert(p[a] == s[a]);
        }
        if k == e.0 {
            assert(p[s.len() as int].0 == k);
        }
    }
    assert forall|k: Seq<char>| #[trigger] entries_map(p).contains_key(k) implies entries_map(p)[k]
        == m[k] by {
        let a = choose|a: int| 0 <= a < p.len() && #[trigger] p[a].0 == k;
        lemma_entry_lookup(p, a);
        if a < s.len() {
            assert(p[a] == s[a]);
            lemma_entry_lookup(s, a);
        }
    }
    assert(entries_map(p) =~= m);
}

/// Albums being collected: for each album, the files received so far, in arrival order.
///
/// The albums are held as a vector of (album, files) entries with at most one entry per
/// album; an album is found by comparing its identifier with each entry's, and the view is
/// the map from album to files that the entries spell out.
pub struct MediaGroupCache {
    entries: Vec<(String, Vec<FileInfo>)>,
}

/// The view of stored entries.
pub open spec fn entry_views(entries: Seq<(String, Vec<FileInfo>)>) -> Seq<EntryView> {
    entries.map_values(|e: (String, Vec<FileInfo>)| (e.0@, e.1@))
}

/// The files collected for `group` after one more file arrives for it.
pub open spec fn with_file(
    m: Map<Seq<char>, Seq<FileInfo>>,
    group: Seq<char>,
    file: FileInfo,
) -> Map<Seq<char>, Seq<FileInfo>> {
    m.insert(
        group,
        if m.contains_key(group) {
            m[group].push(file)
        } else {
            seq![file]
        },
    )
}

/// The cache `m` after `files` arrive for `group`, one after the other.
pub open spec fn with_files(
    m: Map<Seq<char>, Seq<FileInfo>>,
    group: Seq<char>,
    files: Seq<FileInfo>,
) -> Map<Seq<char>, Seq<FileInfo>>
    decreases files.len(),
{
    if files.len() == 0 {
        m
    } else {
        with_file(with_files(m, group, files.drop_last()), group, files.last())
    }
}

/// An album is kept whole and in arrival order: after its files arrive one by one, taking
/// the album gives exactly those files, in that order, and leaves every other album as it
/// was.
pub proof fn lemma_album_kept_in_order(
    m: Map<Seq<char>, Seq<FileInfo>>,
    group: Seq<char>,
    files: Seq<FileInfo>,
)
    requires
        !m.contains_key(group),
        files.len() > 0,
    ensures
        with_files(m, group, files).contains_key(group),
        with_files(m, group, files)[group] == files,
        with_files(m, group, files).remove(group) == m.remove(group),
    decreases files.len(),
{
    let rest = files.drop_last();
    if rest.len() == 0 {
        assert(with_files(m, group, rest) == m);
        assert(files =~= seq![files.last()]);
    } else {
        lemma_album_kept_in_order(m, group, rest);
        assert(files =~= rest.push(files.last()));
    }
    assert(with_files(m, group, files).remove(group) =~= m.remove(group));
}

impl View for MediaGroupCache {
    type V = Map<Seq<char>, Seq<FileInfo>>;

    closed spec fn view(&self) -> Map<Seq<char>, Seq<FileInfo>> {
        entries_map(entry_views(self.entries@))
    }
}

impl MediaGroupCache {
    #[verifier::type_invariant]
    spec fn one_entry_per_group(self) -> bool {
        groups_unique(entry_views(self.entries@))
    }

    /// A cache holding no album.
    pub fn new() -> (res: Self)
        ensures
            res@ == Map::<Seq<char>, Seq<FileInfo>>::empty(),
    {
        let res = MediaGroupCache { entries: Vec::new() };
        assert(res@ =~= Map::<Seq<char>, Seq<FileInfo>>::empty());
        res
    }

    fn position(&self, group: &String) -> (res: Option<usize>)
        ensures
            match res {
                Some(i) => i < self.entries.len() && self.entries@[i as int].0@ == group@,
                None => !has_group(entry_views(self.entries@), group@),
            },
    {
        let mut i: usize = 0;
        while i < self.entries.len()
            invariant
                i <= self.entries.len(),
                forall|j: int| 0 <= j < i ==> self.entries@[j].0@ != group@,
            decreases self.entries.len() - i,
        {
            if self.entries[i].0 == *group {
                return Some(i);
            }
            i = i + 1;
        }
        proof {
            let s = entry_views(self.entries@);
            if has_group(s, group@) {
                let j = choose|j: int| 0 <= j < s.len() && #[trigger] s[j].0 == group@;
                assert(s[j].0 == self.entries@[j].0@);
            }
        }
        None
    }

    /// Adds `file` to the album `group`, after the files already collected for it.
    pub fn add(&mut self, group: &String, file: FileInfo)
        ensures
            final(self)@ == with_file(old(self)@, group@, file),
    {
        proof {
            use_type_invariant(&*self);
        }
        let ghost before = entry_views(self.entries@);
        let found = self.position(group);
        let mut entries: Vec<(String, Vec<FileInfo>)> = Vec::new();
        std::mem::swap(&mut entries, &mut self.entries);
        match found {
            Some(i) => {
                let (key, mut files) = entries.remove(i);
                files.push(file);
                proof {
                    assert(entry_views(entries@) =~= before.remove(i as int));
                    lemma_entry_lookup(before, i as int);
                    lemma_entry_remove(before, i as int);
                    assert(!has_group(before.remove(i as int), group@)) by {
                        if has_group(before.remove(i as int), group@) {
                            assert(!entries_map(before.remove(i as int)).contains_key(group@));
                        }
                    }
                    lemma_entry_push(before.remove(i as int), (key@, files@));
                    assert(entry_views(entries@.push((key, files))) =~= before.remove(
                        i as int,
                    ).push((key@, files@)));
                }
                entries.push((key, files));
                self.entries = entries;
                assert(self@ =~= with_file(old(self)@, group@, file));
            },
            None => {
                let mut files: Vec<FileInfo> = Vec::new();
                files.push(file);
                let key = group.clone();
                proof {
                    lemma_entry_push(before, (group@, files@));
                    assert(files@ =~= seq![file]);
                    assert(entry_views(entries@.push((key, files))) =~= before.push(
                        (group@, files@),
                    ));
                }
                entries.push((key, files));
                self.entries = entries;
                assert(self@ =~= with_file(old(self)@, group@, file));
            },
        }
    }

    /// Takes the album `group` out of the cache: its files in arrival order, or `None` where
    /// nothing is collected for it.
    pub fn take(&mut self, group: &String) -> (res: Option<Vec<FileInfo>>)
        ensures
            match res {
                Some(files) => old(self)@.contains_key(group@) && files@ == old(self)@[group@],
                None => !old(self)@.contains_key(group@),
            },
            final(self)@ == old(self)@.remove(group@),
    {
        proof {
            use_type_invariant(&*self);
        }
        let ghost before = entry_views(self.entries@);
        match self.position(group) {
            Some(i) => {
                proof {
                    lemma_entry_lookup(before, i as int);
                    lemma_entry_remove(before, i as int);
                }
                let mut entries: Vec<(String, Vec<FileInfo>)> = Vec::new();
                std::mem::swap(&mut entries, &mut self.entries);
                let (_key, files) = entries.remove(i);
                assert(entry_views(entries@) =~= before.remove(i as int));
                self.entries = entries;
                Some(files)
            },
            None => {
                assert(self@ =~= old(self)@.remove(group@));
                None
            },
        }
    }
}

} // verus!
