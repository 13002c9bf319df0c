//! Reconstruction of an archive as an ordered list of steps relative to the
//! target directory. Whoever carries the steps out performs the writes and
//! resolves each dependency into an archive whose own steps run at the
//! dependency's place.
use vstd::prelude::*;
use crate::codec::bytes_view;
use crate::codec::md5_hex;
use crate::repo::{decode_content, decoded_content, encodes, stores_compressed, Entry, Repo};
use vstd::utf8::valid_utf8;

verus! {

/// One action of a reconstruction; paths are lists of names below the target.
pub enum Step {
    /// Reconstruct the archive that `reference` locates into the directory `at`.
    Merge { reference: String, at: Vec<String> },
    /// Ensure the directory exists; an existing one is left as it is.
    MakeDir { path: Vec<String> },
    /// Write a file, replacing any file already there, then compare its MD5
    /// with `expected_md5`. `bytes` is `None` when the content could not be
    /// decoded, which ends the reconstruction with an error.
    WriteFile { path: Vec<String>, bytes: Option<Vec<u8>>, expected_md5: Option<String> },
}

/// A step with its strings and byte vectors seen as sequences.
pub enum StepView {
    Merge { reference: Seq<char>, at: Seq<Seq<char>> },
    MakeDir { path: Seq<Seq<char>> },
    WriteFile { path: Seq<Seq<char>>, bytes: Option<Seq<u8>>, expected_md5: Option<Seq<char>> },
}

pub open spec fn names_view(v: Seq<String>) -> Seq<Seq<char>> {
    v.map_values(|s: String| s@)
}

pub open spec fn text_view(o: Option<String>) -> Option<Seq<char>> {
    match o {
        Some(s) => Some(s@),
        None => None,
    }
}

impl View for Step {
    type V = StepView;

    open spec fn view(&self) -> StepView {
        match self {
            Step::Merge { reference, at } => StepView::Merge {
                reference: reference@,
                at: names_view(at@),
            },
            Step::MakeDir { path } => StepView::MakeDir { path: names_view(path@) },
            Step::WriteFile { path, bytes, expected_md5 } => StepView::WriteFile {
                path: names_view(path@),
                bytes: bytes_view(*bytes),
                expected_md5: text_view(*expected_md5),
            },
        }
    }
}

pub open spec fn steps_view(s: Seq<Step>) -> Seq<StepView> {
    s.map_values(|x: Step| x@)
}

/// One merge step into `at` for each dependency, in order.
pub open spec fn merges(deps: Seq<String>, at: Seq<Seq<char>>) -> Seq<StepView> {
    deps.map_values(|d: String| StepView::Merge { reference: d@, at })
}

/// The steps that reconstruct `r` inside the directory `at`: a directory
/// merges its dependencies into `at` first, then ensures itself and
/// reconstructs its children inside itself, in order; a file is written; an
/// empty node does nothing.
pub open spec fn plan_of(r: Repo, at: Seq<Seq<char>>) -> Seq<StepView>
    decreases r, 1int,
{
    match r {
        Repo::Directory { name, children, dependencies, .. } => {
            let dir = at.push(name@);
            let deps = match dependencies {
                Some(d) => merges(d@, at),
                None => Seq::empty(),
            };
            deps + seq![StepView::MakeDir { path: dir }] + children_plan(children@, dir)
        },
        Repo::File { name, content, original_md5, is_compressed, .. } => seq![
            StepView::WriteFile {
                path: at.push(name@),
                bytes: decoded_content(content@, is_compressed),
                expected_md5: text_view(original_md5),
            },
        ],
        Repo::Empty {  } => Seq::empty(),
    }
}

/// The steps of each node of `s` inside `at`, one node after the other.
pub open spec fn children_plan(s: Seq<Repo>, at: Seq<Seq<char>>) -> Seq<StepView>
    decreases s, 0int,
{
    if s.len() == 0 {
        Seq::empty()
    } else {
        children_plan(s.drop_last(), at) + plan_of(s.last(), at)
    }
}

pub(crate) fn clone_path(v: &Vec<String>) -> (r: Vec<String>)
    ensures
        r@ == v@,
{
    let mut r: Vec<String> = Vec::new();
    let mut i: usize = 0;
    while i < v.len()
        invariant
            i <= v.len(),
            r@ == v@.take(i as int),
        decreases v.len() - i,
    {
        r.push(v[i].clone());
        i = i + 1;
        assert(r@ =~= v@.take(i as int));
    }
    assert(v@.take(v.len() as int) =~= v@);
    r
}

fn clone_text(o: &Option<String>) -> (r: Option<String>)
    ensures
        r == *o,
{
    match o {
        Some(s) => Some(s.clone()),
        None => None,
    }
}

impl Repo {
    /// Appends to `out` the steps that reconstruct this node inside `at`.
    pub fn plan_into(&self, at: &Vec<String>, out: &mut Vec<Step>)
        ensures
            steps_view(final(out)@) == steps_view(old(out)@) + plan_of(*self, names_view(at@)),
        decreases self,
    {
        let ghost start = steps_view(out@);
        match self {
            Repo::Directory { name, children, dependencies, .. } => {
                let mut dir = clone_path(at);
                dir.push(name.clone());
                let ghost d = names_view(at@).push(name@);
                assert(names_view(dir@) =~= d);
                let ghost deps = match dependencies {
                    Some(v) => merges(v@, names_view(at@)),
                    None => Seq::<StepView>::empty(),
                };
                match dependencies {
                    Some(v) => {
                        let mut i: usize = 0;
                        while i < v.len()
                            invariant
                                i <= v.len(),
                                steps_view(out@) == start + merges(v@.take(i as int), names_view(at@)),
                            decreases v.len() - i,
                        {
                            let step = Step::Merge { reference: v[i].clone(), at: clone_path(at) };
                            assert(step@ == StepView::Merge { reference: v@[i as int]@, at: names_view(at@) });
                            let ghost prev = out@;
                            out.push(step);
                            proof {
                                assert(steps_view(out@) =~= steps_view(prev).push(step@));
                                assert(merges(v@.take(i + 1), names_view(at@)) =~= merges(
                                    v@.take(i as int),
                                    names_view(at@),
                                ).push(StepView::Merge { reference: v@[i as int]@, at: names_view(at@) }));
                                assert(steps_view(out@) =~= start + merges(v@.take(i + 1), names_view(at@)));
                            }
                            i = i + 1;
                        }
                        assert(v@.take(v.len() as int) =~= v@);
                    },
                    None => {
                        assert(steps_view(out@) =~= start + deps);
                    },
                }
                let ghost before_dir = steps_view(out@);
                out.push(Step::MakeDir { path: clone_path(&dir) });
                assert(steps_view(out@) =~= before_dir.push(StepView::MakeDir { path: d }));
                let ghost head = steps_view(out@);
                let mut i: usize = 0;
                while i < children.len()
                    invariant
                        self is Directory && self->Directory_children == *children,
                        names_view(dir@) == d,
                        i <= children.len(),
                        steps_view(out@) == head + children_plan(children@.take(i as int), d),
                    decreases children.len() - i,
                {
                    proof {
                        assert(decreases_to!(self => self->Directory_children));
                        assert(decreases_to!(self->Directory_children => self->Directory_children@));
                        assert(decreases_to!(self->Directory_children@ => children@[i as int]));
                    }
                    let ghost mid = steps_view(out@);
                    children[i].plan_into(&dir, out);
                    proof {
                        let t = children@.take(i + 1);
                        assert(t.drop_last() =~= children@.take(i as int));
                        assert(t.last() == children@[i as int]);
                    }
                    i = i + 1;
                }
                assert(children@.take(children.len() as int) =~= children@);
                assert(steps_view(out@) =~= start + plan_of(*self, names_view(at@)));
            },
            Repo::File { name, content, original_md5, is_compressed, .. } => {
                let mut path = clone_path(at);
                path.push(name.clone());
                assert(names_view(path@) =~= names_view(at@).push(name@));
                let bytes = decode_content(content, *is_compressed);
                out.push(
                    Step::WriteFile { path, bytes, expected_md5: clone_text(original_md5) },
                );
                assert(steps_view(out@) =~= start + plan_of(*self, names_view(at@)));
            },
            Repo::Empty {  } => {
                assert(steps_view(out@) =~= start + plan_of(*self, names_view(at@)));
            },
        }
    }

    /// The steps that reconstruct this archive inside a target directory.
    pub fn to_folder(&self) -> (r: Vec<Step>)
        ensures
            steps_view(r@) == plan_of(*self, Seq::empty()),
    {
        let mut out: Vec<Step> = Vec::new();
        let at: Vec<String> = Vec::new();
        assert(names_view(at@) =~= Seq::<Seq<char>>::empty());
        self.plan_into(&at, &mut out);
        assert(steps_view(out@) =~= plan_of(*self, Seq::empty()));
        out
    }
}

/// Whether the step writes the file at `p`.
pub open spec fn writes_to(s: StepView, p: Seq<Seq<char>>) -> bool {
    s is WriteFile && s->WriteFile_path == p
}

/// The paths of the files that the steps write.
pub open spec fn written(steps: Seq<StepView>) -> Set<Seq<Seq<char>>> {
    Set::new(|p: Seq<Seq<char>>| exists|i: int| 0 <= i < steps.len() && #[trigger] writes_to(steps[i], p))
}

/// Running two lists of steps one after the other writes the files of both.
pub proof fn lemma_written_concat(a: Seq<StepView>, b: Seq<StepView>)
    ensures
        written(a + b) == written(a).union(written(b)),
{
    assert forall|p: Seq<Seq<char>>|
        #[trigger] written(a + b).contains(p) == written(a).union(written(b)).contains(p) by {
        if written(a + b).contains(p) {
            let i = choose|i: int| 0 <= i < (a + b).len() && #[trigger] writes_to((a + b)[i], p);
            if i < a.len() {
                assert(writes_to(a[i], p));
            } else {
                assert(writes_to(b[i - a.len()], p));
            }
        }
        if written(a).contains(p) {
            let i = choose|i: int| 0 <= i < a.len() && #[trigger] writes_to(a[i], p);
            assert(writes_to((a + b)[i], p));
        }
        if written(b).contains(p) {
            let i = choose|i: int| 0 <= i < b.len() && #[trigger] writes_to(b[i], p);
            assert(writes_to((a + b)[i + a.len()], p));
        }
    }
    assert(written(a + b) =~= written(a).union(written(b)));
}

proof fn lemma_merges_write_nothing(deps: Seq<String>, at: Seq<Seq<char>>)
    ensures
        written(merges(deps, at)) == Set::<Seq<Seq<char>>>::empty(),
{
    assert(written(merges(deps, at)) =~= Set::<Seq<Seq<char>>>::empty());
}

proof fn lemma_make_dir_writes_nothing(path: Seq<Seq<char>>)
    ensures
        written(seq![StepView::MakeDir { path }]) == Set::<Seq<Seq<char>>>::empty(),
{
    assert(written(seq![StepView::MakeDir { path }]) =~= Set::<Seq<Seq<char>>>::empty());
}

/// A directory with one dependency merges it into the same target before
/// anything of its own: once the merge step is replaced by the steps of the
/// archive that the dependency resolves to, a directory of the same name, the
/// files written inside that directory are those of the dependency's children
/// together with those of the directory's own children.
pub proof fn lemma_dependency_merge(node: Repo, dep: Repo, at: Seq<Seq<char>>)
    requires
        node is Directory,
        node->Directory_dependencies is Some,
        node->Directory_dependencies->0@.len() == 1,
        dep is Directory,
        dep->Directory_dependencies is None,
        dep->Directory_name@ == node->Directory_name@,
    ensures
        plan_of(node, at)[0] == (StepView::Merge {
            reference: node->Directory_dependencies->0@[0]@,
            at,
        }),
        ({
            let dir = at.push(node->Directory_name@);
            let merged = plan_of(dep, at) + plan_of(node, at).drop_first();
            written(merged) == written(children_plan(dep->Directory_children@, dir)).union(
                written(children_plan(node->Directory_children@, dir)),
            )
        }),
{
    let dir = at.push(node->Directory_name@);
    let deps = node->Directory_dependencies->0@;
    let own = children_plan(node->Directory_children@, dir);
    let theirs = children_plan(dep->Directory_children@, dir);
    let mk = seq![StepView::MakeDir { path: dir }];
    assert(plan_of(node, at) == merges(deps, at) + mk + own);
    assert(plan_of(node, at).drop_first() =~= mk + own);
    assert(plan_of(dep, at) =~= mk + theirs);
    lemma_make_dir_writes_nothing(dir);
    lemma_written_concat(mk, own);
    lemma_written_concat(mk, theirs);
    lemma_written_concat(mk + theirs, mk + own);
    assert(written(plan_of(dep, at) + plan_of(node, at).drop_first()) =~= written(theirs).union(
        written(own),
    ));
}

/// An empty node reconstructs to nothing: no directory, no file, no checksum.
pub proof fn lemma_empty_plans_nothing(at: Seq<Seq<char>>)
    ensures
        plan_of(Repo::Empty {  }, at) == Seq::<StepView>::empty(),
{
}

/// A file is written whatever checksum its record holds: the recorded MD5
/// only goes with the write step, to be compared after writing.
pub proof fn lemma_file_written_whatever_checksum(r: Repo, other_md5: Option<String>, at: Seq<Seq<char>>)
    requires
        r is File,
    ensures
        plan_of(r, at).len() == 1,
        writes_to(plan_of(r, at)[0], at.push(r->File_name@)),
        plan_of(r, at)[0]->WriteFile_bytes == decoded_content(r->File_content@, r->File_is_compressed),
        ({
            let edited = Repo::File {
                name: r->File_name,
                content: r->File_content,
                original_size: r->File_original_size,
                original_md5: other_md5,
                is_compressed: r->File_is_compressed,
                is_optional: r->File_is_optional,
            };
            plan_of(edited, at)[0]->WriteFile_bytes == plan_of(r, at)[0]->WriteFile_bytes
        }),
{
}

/// Every file under `e` that is stored as text holds valid UTF-8.
pub open spec fn text_files_valid(e: Entry, compress: bool) -> bool
    decreases e,
{
    match e {
        Entry::Dir { entries, .. } => forall|i: int|
            0 <= i < entries.len() ==> text_files_valid(#[trigger] entries@[i], compress),
        Entry::File { name, bytes } => stores_compressed(name@, compress) || valid_utf8(bytes@),
    }
}

/// The steps that rebuild the snapshot `e` inside `at`: each directory is
/// made, then each file gets exactly its bytes, checked against their MD5.
pub open spec fn snapshot_plan(e: Entry, at: Seq<Seq<char>>, root: bool) -> Seq<StepView>
    decreases e, 1int,
{
    match e {
        Entry::Dir { name, entries } => {
            let dir = at.push(
                if root {
                    "."@
                } else {
                    name@
                },
            );
            seq![StepView::MakeDir { path: dir }] + snapshot_entries_plan(entries@, dir)
        },
        Entry::File { name, bytes } => seq![
            StepView::WriteFile {
                path: at.push(name@),
                bytes: Some(bytes@),
                expected_md5: Some(md5_hex(bytes@)),
            },
        ],
    }
}

/// The steps of each entry of `s` inside `at`, one after the other.
pub open spec fn snapshot_entries_plan(s: Seq<Entry>, at: Seq<Seq<char>>) -> Seq<StepView>
    decreases s, 0int,
{
    if s.len() == 0 {
        Seq::empty()
    } else {
        snapshot_entries_plan(s.drop_last(), at) + snapshot_plan(s.last(), at, false)
    }
}

/// Rebuilding an encoded directory tree recreates it: every directory, and
/// every file with exactly its original bytes and a matching checksum. This
/// holds for every file stored compressed, whether asked for or forced by its
/// extension, and for every file stored as text that is valid UTF-8.
pub proof fn lemma_tree_round_trip(r: Repo, e: Entry, compress: bool, root: bool, at: Seq<Seq<char>>)
    requires
        encodes(r, e, compress, root),
        text_files_valid(e, compress),
    ensures
        plan_of(r, at) == snapshot_plan(e, at, root),
    decreases e, 1int,
{
    match e {
        Entry::Dir { name, entries } => {
            let dir = at.push(r->Directory_name@);
            assert(decreases_to!(e => e->Dir_entries));
            assert(decreases_to!(e->Dir_entries => e->Dir_entries@));
            lemma_children_round_trip(r->Directory_children@, entries@, compress, dir);
            assert(plan_of(r, at) =~= snapshot_plan(e, at, root));
        },
        Entry::File { .. } => {
        },
    }
}

proof fn lemma_children_round_trip(
    rs: Seq<Repo>,
    es: Seq<Entry>,
    compress: bool,
    at: Seq<Seq<char>>,
)
    requires
        rs.len() == es.len(),
        forall|i: int| 0 <= i < es.len() ==> encodes(#[trigger] rs[i], es[i], compress, false),
        forall|i: int| 0 <= i < es.len() ==> text_files_valid(#[trigger] es[i], compress),
    ensures
        children_plan(rs, at) == snapshot_entries_plan(es, at),
    decreases es, 0int,
{
    if es.len() > 0 {
        let n = es.len() - 1;
        assert(encodes(rs[n], es[n], compress, false));
        assert(text_files_valid(es[n], compress));
        lemma_tree_round_trip(rs.last(), es.last(), compress, false, at);
        lemma_children_round_trip(rs.drop_last(), es.drop_last(), compress, at);
    }
}

} // verus!
