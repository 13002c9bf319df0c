//! Read-only comparison of an archive with what a directory holds, as a list
//! of findings; an empty list means that the directory matches.
use vstd::prelude::*;
use crate::codec::{md5_hex, md5_hex_of};
use crate::plan::{clone_path, names_view};
use crate::repo::{encodes, Entry, Repo};

verus! {

/// What is wrong at one path.
pub enum Discrepancy {
    /// No directory where the archive has one.
    MissingDirectory,
    /// A file where the archive has a directory.
    NotADirectory,
    /// A required file is absent.
    MissingFile,
    /// A directory where the archive has a file.
    NotAFile,
    SizeMismatch { expected: u64, found: u64 },
    ChecksumMismatch { expected_md5: String, found_md5: String },
    /// The archive's file record gives no size to compare with.
    MissingSize,
    /// The archive's file record gives no checksum to compare with.
    MissingChecksum,
}

pub enum DiscrepancyView {
    MissingDirectory,
    NotADirectory,
    MissingFile,
    NotAFile,
    SizeMismatch { expected: u64, found: u64 },
    ChecksumMismatch { expected_md5: Seq<char>, found_md5: Seq<char> },
    MissingSize,
    MissingChecksum,
}

/// A discrepancy and the path, as names below the target, where it was found.
pub struct Finding {
    pub path: Vec<String>,
    pub kind: Discrepancy,
}

pub struct FindingView {
    pub path: Seq<Seq<char>>,
    pub kind: DiscrepancyView,
}

impl View for Discrepancy {
    type V = DiscrepancyView;

    open spec fn view(&self) -> DiscrepancyView {
        match self {
            Discrepancy::MissingDirectory => DiscrepancyView::MissingDirectory,
            Discrepancy::NotADirectory => DiscrepancyView::NotADirectory,
            Discrepancy::MissingFile => DiscrepancyView::MissingFile,
            Discrepancy::NotAFile => DiscrepancyView::NotAFile,
            Discrepancy::SizeMismatch { expected, found } => DiscrepancyView::SizeMismatch {
                expected: *expected,
                found: *found,
            },
            Discrepancy::ChecksumMismatch { expected_md5, found_md5 } => DiscrepancyView::ChecksumMismatch {
                expected_md5: expected_md5@,
                found_md5: found_md5@,
            },
            Discrepancy::MissingSize => DiscrepancyView::MissingSize,
            Discrepancy::MissingChecksum => DiscrepancyView::MissingChecksum,
        }
    }
}

impl View for Finding {
    type V = FindingView;

    open spec fn view(&self) -> FindingView {
        FindingView { path: names_view(self.path@), kind: self.kind@ }
    }
}

pub open spec fn findings_view(s: Seq<Finding>) -> Seq<FindingView> {
    s.map_values(|f: Finding| f@)
}

pub open spec fn entry_name(e: Entry) -> Seq<char> {
    match e {
        Entry::Dir { name, .. } => name@,
        Entry::File { name, .. } => name@,
    }
}

/// Index of the first entry named `name`.
pub open spec fn first_named(s: Seq<Entry>, name: Seq<char>) -> Option<int>
    decreases s.len(),
{
    if s.len() == 0 {
        None
    } else {
        match first_named(s.drop_last(), name) {
            Some(i) => Some(i),
            None => if entry_name(s.last()) == name {
                Some(s.len() - 1)
            } else {
                None
            },
        }
    }
}

pub open spec fn finding(path: Seq<Seq<char>>, kind: DiscrepancyView) -> Seq<FindingView> {
    seq![FindingView { path, kind }]
}

/// Findings on the recorded size and checksum of a file that holds `bytes`.
pub open spec fn content_report(
    original_size: Option<u64>,
    original_md5: Option<String>,
    bytes: Seq<u8>,
    path: Seq<Seq<char>>,
) -> Seq<FindingView> {
    let size = match original_size {
        None => finding(path, DiscrepancyView::MissingSize),
        Some(n) => if n != bytes.len() {
            finding(path, DiscrepancyView::SizeMismatch { expected: n, found: bytes.len() as u64 })
        } else {
            Seq::empty()
        },
    };
    let sum = match original_md5 {
        None => finding(path, DiscrepancyView::MissingChecksum),
        Some(m) => if m@ != md5_hex(bytes) {
            finding(
                path,
                DiscrepancyView::ChecksumMismatch { expected_md5: m@, found_md5: md5_hex(bytes) },
            )
        } else {
            Seq::empty()
        },
    };
    size + sum
}

/// Findings of node `r` against the directory at `at`, whose entries are
/// `dir`. A directory named `.` is the directory at `at` itself. A directory that is absent, or not a directory, is one finding and
/// its subtree is not looked at; a missing file is a finding unless it is
/// optional; a present file is checked for size and checksum.
pub open spec fn report_of(r: Repo, dir: Seq<Entry>, at: Seq<Seq<char>>) -> Seq<FindingView>
    decreases r, 1int,
{
    match r {
        Repo::Directory { name, children, .. } => {
            let path = at.push(name@);
            if name@ == "."@ {
                children_report(children@, dir, path)
            } else {
                match first_named(dir, name@) {
                None => finding(path, DiscrepancyView::MissingDirectory),
                Some(i) => match dir[i] {
                    Entry::Dir { entries, .. } => children_report(children@, entries@, path),
                    Entry::File { .. } => finding(path, DiscrepancyView::NotADirectory),
                },
                }
            }
        },
        Repo::File { name, original_size, original_md5, is_optional, .. } => {
            let path = at.push(name@);
            match first_named(dir, name@) {
                None => if is_optional == Some(true) {
                    Seq::empty()
                } else {
                    finding(path, DiscrepancyView::MissingFile)
                },
                Some(i) => match dir[i] {
                    Entry::Dir { .. } => finding(path, DiscrepancyView::NotAFile),
                    Entry::File { bytes, .. } => content_report(
                        original_size,
                        original_md5,
                        bytes@,
                        path,
                    ),
                },
            }
        },
        Repo::Empty {  } => Seq::empty(),
    }
}

/// Findings of each node of `s`, one node after the other.
pub open spec fn children_report(s: Seq<Repo>, dir: Seq<Entry>, at: Seq<Seq<char>>) -> Seq<
    FindingView,
>
    decreases s, 0int,
{
    if s.len() == 0 {
        Seq::empty()
    } else {
        children_report(s.drop_last(), dir, at) + report_of(s.last(), dir, at)
    }
}

proof fn lemma_first_named_prefix(s: Seq<Entry>, name: Seq<char>, k: int)
    requires
        0 <= k <= s.len(),
        first_named(s.subrange(0, k), name) is Some,
    ensures
        first_named(s, name) == first_named(s.subrange(0, k), name),
    decreases s.len() - k,
{
    if k < s.len() {
        let t = s.subrange(0, k + 1);
        assert(t.drop_last() =~= s.subrange(0, k));
        lemma_first_named_prefix(s, name, k + 1);
    } else {
        assert(s.subrange(0, k) =~= s);
    }
}

fn find_entry(dir: &Vec<Entry>, name: &String) -> (r: Option<usize>)
    ensures
        r matches Some(i) ==> i < dir.len(),
        match r {
            Some(i) => first_named(dir@, name@) == Some(i as int),
            None => first_named(dir@, name@) is None,
        },
{
    let mut i: usize = 0;
    while i < dir.len()
        invariant
            i <= dir.len(),
            first_named(dir@.subrange(0, i as int), name@) is None,
        decreases dir.len() - i,
    {
        let t = Ghost(dir@.subrange(0, i + 1));
        assert(t@.drop_last() =~= dir@.subrange(0, i as int));
        let n = match &dir[i] {
            Entry::Dir { name, .. } => name,
            Entry::File { name, .. } => name,
        };
        if *n == *name {
            proof {
                lemma_first_named_prefix(dir@, name@, i + 1);
            }
            return Some(i);
        }
        i = i + 1;
    }
    assert(dir@.subrange(0, dir.len() as int) =~= dir@);
    None
}

fn is_dot(name: &String) -> (r: bool)
    ensures
        r == (name@ == "."@),
{
    proof {
        reveal_strlit(".");
    }
    let s = name.as_str();
    if s.unicode_len() != 1 {
        return false;
    }
    let r = s.get_char(0) == '.';
    assert(r ==> name@ =~= "."@);
    r
}

fn push_finding(out: &mut Vec<Finding>, path: &Vec<String>, kind: Discrepancy)
    ensures
        findings_view(final(out)@) == findings_view(old(out)@) + finding(names_view(path@), kind@),
{
    let ghost prev = out@;
    let f = Finding { path: clone_path(path), kind };
    out.push(f);
    assert(findings_view(out@) =~= findings_view(prev) + finding(names_view(path@), kind@));
}

fn check_content(
    original_size: &Option<u64>,
    original_md5: &Option<String>,
    bytes: &Vec<u8>,
    path: &Vec<String>,
    out: &mut Vec<Finding>,
)
    ensures
        findings_view(final(out)@) == findings_view(old(out)@) + content_report(
            *original_size,
            *original_md5,
            bytes@,
            names_view(path@),
        ),
{
    let ghost start = findings_view(out@);
    let p = Ghost(names_view(path@));
    let ghost size = match *original_size {
        None => finding(p@, DiscrepancyView::MissingSize),
        Some(n) => if n != bytes@.len() {
            finding(p@, DiscrepancyView::SizeMismatch { expected: n, found: bytes@.len() as u64 })
        } else {
            Seq::empty()
        },
    };
    match original_size {
        None => push_finding(out, path, Discrepancy::MissingSize),
        Some(n) => {
            if *n != bytes.len() as u64 {
                push_finding(
                    out,
                    path,
                    Discrepancy::SizeMismatch { expected: *n, found: bytes.len() as u64 },
                );
            } else {
                assert(findings_view(out@) =~= start + size);
            }
        },
    }
    assert(findings_view(out@) == start + size);
    let ghost mid = findings_view(out@);
    match original_md5 {
        None => push_finding(out, path, Discrepancy::MissingChecksum),
        Some(m) => {
            let found = md5_hex_of(bytes.as_slice());
            if found != *m {
                push_finding(
                    out,
                    path,
                    Discrepancy::ChecksumMismatch { expected_md5: m.clone(), found_md5: found },
                );
            } else {
                assert(findings_view(out@) =~= mid + Seq::<FindingView>::empty());
            }
        },
    }
    assert(findings_view(out@) =~= start + content_report(
        *original_size,
        *original_md5,
        bytes@,
        names_view(path@),
    ));
}

impl Repo {
    /// Appends to `out` the findings of this node against the directory at
    /// `at`, whose entries are `dir`.
    pub fn check_into(&self, dir: &Vec<Entry>, at: &Vec<String>, out: &mut Vec<Finding>)
        ensures
            findings_view(final(out)@) == findings_view(old(out)@) + report_of(
                *self,
                dir@,
                names_view(at@),
            ),
        decreases self,
    {
        let ghost start = findings_view(out@);
        match self {
            Repo::Directory { name, children, .. } => {
                let mut path = clone_path(at);
                path.push(name.clone());
                let ghost p = names_view(at@).push(name@);
                assert(names_view(path@) =~= p);
                let entries: &Vec<Entry> = if is_dot(name) {
                    dir
                } else {
                    match find_entry(dir, name) {
                        None => {
                            push_finding(out, &path, Discrepancy::MissingDirectory);
                            return ;
                        },
                        Some(k) => match &dir[k] {
                            Entry::File { .. } => {
                                push_finding(out, &path, Discrepancy::NotADirectory);
                                return ;
                            },
                            Entry::Dir { entries, .. } => entries,
                        },
                    }
                };
                let mut i: usize = 0;
                while i < children.len()
                    invariant
                        self is Directory && self->Directory_children == *children,
                        names_view(path@) == p,
                        i <= children.len(),
                        findings_view(out@) == start + children_report(
                            children@.take(i as int),
                            entries@,
                            p,
                        ),
                    decreases children.len() - i,
                {
                    proof {
                        assert(decreases_to!(self => self->Directory_children));
                        assert(decreases_to!(self->Directory_children => self->Directory_children@));
                        assert(decreases_to!(self->Directory_children@ => children@[i as int]));
                    }
                    children[i].check_into(entries, &path, out);
                    proof {
                        let t = children@.take(i + 1);
                        assert(t.drop_last() =~= children@.take(i as int));
                        assert(t.last() == children@[i as int]);
                    }
                    i = i + 1;
                }
                assert(children@.take(children.len() as int) =~= children@);
            },
            Repo::File { name, original_size, original_md5, is_optional, .. } => {
                let mut path = clone_path(at);
                path.push(name.clone());
                assert(names_view(path@) =~= names_view(at@).push(name@));
                match find_entry(dir, name) {
                    None => {
                        if *is_optional == Some(true) {
                            assert(findings_view(out@) =~= start + Seq::<FindingView>::empty());
                        } else {
                            push_finding(out, &path, Discrepancy::MissingFile);
                        }
                    },
                    Some(k) => match &dir[k] {
                        Entry::Dir { .. } => push_finding(out, &path, Discrepancy::NotAFile),
                        Entry::File { bytes, .. } => check_content(
                            original_size,
                            original_md5,
                            bytes,
                            &path,
                            out,
                        ),
                    },
                }
            },
            Repo::Empty {  } => {
                assert(findings_view(out@) =~= start + Seq::<FindingView>::empty());
            },
        }
    }

    /// The findings of this archive against a target directory whose entries
    /// are `target`; none when the directory matches.
    pub fn validated(&self, target: &Vec<Entry>) -> (r: Vec<Finding>)
        ensures
            findings_view(r@) == report_of(*self, target@, Seq::empty()),
    {
        let mut out: Vec<Finding> = Vec::new();
        let at: Vec<String> = Vec::new();
        assert(names_view(at@) =~= Seq::<Seq<char>>::empty());
        self.check_into(target, &at, &mut out);
        assert(findings_view(out@) =~= report_of(*self, target@, Seq::empty()));
        out
    }
}

/// A file missing from the directory is no finding when its record marks it
/// optional, and exactly one `MissingFile` finding at its path otherwise.
pub proof fn lemma_missing_file(r: Repo, dir: Seq<Entry>, at: Seq<Seq<char>>)
    requires
        r is File,
        first_named(dir, r->File_name@) is None,
    ensures
        r->File_is_optional == Some(true) ==> report_of(r, dir, at) == Seq::<FindingView>::empty(),
        r->File_is_optional != Some(true) ==> report_of(r, dir, at) == seq![
            FindingView { path: at.push(r->File_name@), kind: DiscrepancyView::MissingFile },
        ],
{
}

/// The findings of a list of sibling nodes are those of its first part
/// followed by those of the rest: a finding on one node never stops the
/// others from being checked.
pub proof fn lemma_siblings_all_checked(
    a: Seq<Repo>,
    b: Seq<Repo>,
    dir: Seq<Entry>,
    at: Seq<Seq<char>>,
)
    ensures
        children_report(a + b, dir, at) == children_report(a, dir, at) + children_report(b, dir, at),
    decreases b.len(),
{
    if b.len() == 0 {
        assert(a + b =~= a);
        assert(children_report(a, dir, at) + children_report(b, dir, at) =~= children_report(a, dir, at));
    } else {
        assert((a + b).drop_last() =~= a + b.drop_last());
        assert((a + b).last() == b.last());
        lemma_siblings_all_checked(a, b.drop_last(), dir, at);
        assert(children_report(a + b, dir, at) =~= children_report(a, dir, at) + children_report(
            b,
            dir,
            at,
        ));
    }
}

/// An empty node is always satisfied: it yields no finding and no checksum
/// is computed for it.
pub proof fn lemma_empty_always_satisfied(dir: Seq<Entry>, at: Seq<Seq<char>>)
    ensures
        report_of(Repo::Empty {  }, dir, at) == Seq::<FindingView>::empty(),
{
}

/// No two entries of a directory, at any depth, share a name, and none is
/// named `.`, as on every file system.
pub open spec fn names_unique(e: Entry) -> bool
    decreases e,
{
    match e {
        Entry::Dir { entries, .. } => {
            &&& unique_in(entries@)
            &&& forall|i: int| 0 <= i < entries.len() ==> names_unique(#[trigger] entries@[i])
        },
        Entry::File { .. } => true,
    }
}

pub open spec fn unique_in(s: Seq<Entry>) -> bool {
    &&& forall|i: int, j: int|
        0 <= i < j < s.len() ==> entry_name(#[trigger] s[i]) != entry_name(#[trigger] s[j])
    &&& forall|i: int| 0 <= i < s.len() ==> entry_name(#[trigger] s[i]) != "."@
}

proof fn lemma_first_named_found(s: Seq<Entry>, name: Seq<char>)
    ensures
        first_named(s, name) matches Some(k) ==> 0 <= k < s.len() && entry_name(s[k]) == name,
    decreases s.len(),
{
    if s.len() > 0 {
        lemma_first_named_found(s.drop_last(), name);
    }
}

proof fn lemma_first_named_unique(s: Seq<Entry>, i: int)
    requires
        unique_in(s),
        0 <= i < s.len(),
    ensures
        first_named(s, entry_name(s[i])) == Some(i),
    decreases s.len(),
{
    let t = s.drop_last();
    let n = entry_name(s[i]);
    lemma_first_named_found(t, n);
    if i < s.len() - 1 {
        assert(t[i] == s[i]);
        lemma_first_named_unique(t, i);
    } else {
        if first_named(t, n) is Some {
            let k = first_named(t, n)->0;
            assert(t[k] == s[k]);
        }
    }
}

/// Validating a directory against the archive just made of it finds
/// nothing, whether its files were stored compressed or as text.
pub proof fn lemma_fresh_archive_validates(r: Repo, e: Entry, compress: bool)
    requires
        encodes(r, e, compress, true),
        names_unique(e),
    ensures
        report_of(r, e->Dir_entries@, Seq::empty()) == Seq::<FindingView>::empty(),
{
    let s = e->Dir_entries@;
    assert(decreases_to!(e => e->Dir_entries));
    assert(decreases_to!(e->Dir_entries => e->Dir_entries@));
    lemma_children_validate(r->Directory_children@, s, compress, seq!["."@]);
}

proof fn lemma_child_validates(r: Repo, s: Seq<Entry>, i: int, compress: bool, at: Seq<Seq<char>>)
    requires
        0 <= i < s.len(),
        unique_in(s),
        names_unique(s[i]),
        encodes(r, s[i], compress, false),
    ensures
        report_of(r, s, at) == Seq::<FindingView>::empty(),
    decreases s[i], 0int,
{
    lemma_first_named_unique(s, i);
    let e = s[i];
    match e {
        Entry::Dir { name, entries } => {
            assert(decreases_to!(e => e->Dir_entries));
            assert(decreases_to!(e->Dir_entries => e->Dir_entries@));
            lemma_children_validate(r->Directory_children@, entries@, compress, at.push(name@));
        },
        Entry::File { bytes, .. } => {
            assert(content_report(r->File_original_size, r->File_original_md5, bytes@, at.push(r->File_name@))
                =~= Seq::<FindingView>::empty());
        },
    }
}

proof fn lemma_children_validate(rs: Seq<Repo>, s: Seq<Entry>, compress: bool, at: Seq<Seq<char>>)
    requires
        rs.len() <= s.len(),
        unique_in(s),
        forall|k: int| 0 <= k < s.len() ==> names_unique(#[trigger] s[k]),
        forall|k: int| 0 <= k < rs.len() ==> encodes(#[trigger] rs[k], s[k], compress, false),
    ensures
        children_report(rs, s, at) == Seq::<FindingView>::empty(),
    decreases s, rs.len(),
{
    if rs.len() > 0 {
        let n = rs.len() - 1;
        assert(encodes(rs[n], s[n], compress, false));
        assert(names_unique(s[n]));
        lemma_child_validates(rs.last(), s, n, compress, at);
        lemma_children_validate(rs.drop_last(), s, compress, at);
    }
}

} // verus!
