//! The directory model: entries, their total order, the listing with its
//! cursor and window, and the action processor that applies each [`Action`].
//!
//! Filesystem work never happens here. The surrounding binary enumerates a
//! directory into plain [`RawEntry`] values and hands them to
//! [`DirectoryListState::read`]; applying an action yields an [`Effect`]
//! naming the filesystem or process work the binary must perform before it
//! feeds the reloaded listing back in.
//!
//! Searching follows the live-prefix style: each edit of the find prompt
//! rescans the whole list from the top, while the find-next search continues
//! just past the cursor and wraps around the end, so one search visits every
//! entry once. Matching is case-insensitive in both.

use vstd::prelude::*;

use crate::action::Action;
use crate::text::{
    after_last_slash, file_name_matches, is_prefix_of, lex_le, lex_le_exec, lemma_lex_le_total,
    lemma_lex_le_trans, lower_of, lowercase, starts_with_exec,
};

verus! {

/// Whether an entry is the synthetic parent, a directory, or a file.
#[derive(Debug, Clone, Copy, PartialEq, Eq, Structural)]
pub enum FileEntryKind {
    Parent,
    Directory,
    File,
}

/// One filesystem child or the synthetic parent (`..`).
#[derive(Debug, Clone, PartialEq, Eq)]
pub struct FileEntry {
    pub kind: FileEntryKind,
    /// The name shown in the list, with a trailing `/` appended for
    /// directories.
    pub display: String,
    /// The path used for operations on the entry; never altered for display.
    pub path: String,
}

/// The mathematical image of a [`FileEntry`].
pub struct EntryView {
    pub kind: FileEntryKind,
    pub display: Seq<char>,
    pub path: Seq<char>,
}

impl View for FileEntry {
    type V = EntryView;

    open spec fn view(&self) -> EntryView {
        EntryView { kind: self.kind, display: self.display@, path: self.path@ }
    }
}

/// One directory child as the filesystem reports it: a name, whether it is a
/// directory, and its path.
#[derive(Debug, Clone, PartialEq, Eq)]
pub struct RawEntry {
    pub name: String,
    pub is_dir: bool,
    pub path: String,
}

/// The mathematical image of a [`RawEntry`].
pub struct RawView {
    pub name: Seq<char>,
    pub is_dir: bool,
    pub path: Seq<char>,
}

impl View for RawEntry {
    type V = RawView;

    open spec fn view(&self) -> RawView {
        RawView { name: self.name@, is_dir: self.is_dir, path: self.path@ }
    }
}

/// Parent sorts before directories, directories before files.
pub open spec fn kind_rank(k: FileEntryKind) -> int {
    match k {
        FileEntryKind::Parent => 0,
        FileEntryKind::Directory => 1,
        FileEntryKind::File => 2,
    }
}

/// The listing order: by kind first, then case-insensitively by display name.
pub open spec fn entry_le(a: EntryView, b: EntryView) -> bool {
    if kind_rank(a.kind) != kind_rank(b.kind) {
        kind_rank(a.kind) < kind_rank(b.kind)
    } else {
        lex_le(lower_of(a.display), lower_of(b.display))
    }
}

/// The entries stand in listing order.
pub open spec fn sorted_entries(s: Seq<EntryView>) -> bool {
    forall|i: int, j: int|
        0 <= i < j < s.len() ==> entry_le(#[trigger] s[i], #[trigger] s[j])
}

/// The views of a sequence of entries.
pub open spec fn views_of(s: Seq<FileEntry>) -> Seq<EntryView> {
    s.map_values(|e: FileEntry| e@)
}

/// Any two entries are ordered one way or the other.
pub proof fn lemma_entry_le_total(a: EntryView, b: EntryView)
    ensures
        entry_le(a, b) || entry_le(b, a),
{
    if kind_rank(a.kind) == kind_rank(b.kind) {
        lemma_lex_le_total(lower_of(a.display), lower_of(b.display));
    }
}

/// The listing order is transitive.
pub proof fn lemma_entry_le_trans(a: EntryView, b: EntryView, c: EntryView)
    requires
        entry_le(a, b),
        entry_le(b, c),
    ensures
        entry_le(a, c),
{
    if kind_rank(a.kind) == kind_rank(b.kind) && kind_rank(b.kind) == kind_rank(c.kind) {
        lemma_lex_le_trans(
            lower_of(a.display),
            lower_of(b.display),
            lower_of(c.display),
        );
    }
}

fn kind_rank_of(k: FileEntryKind) -> (r: u8)
    ensures
        r as int == kind_rank(k),
{
    match k {
        FileEntryKind::Parent => 0,
        FileEntryKind::Directory => 1,
        FileEntryKind::File => 2,
    }
}

impl FileEntry {
    /// Whether `self` comes no later than `other` in the listing order.
    pub fn le(&self, other: &FileEntry) -> (r: bool)
        ensures
            r == entry_le(self@, other@),
    {
        let ra = kind_rank_of(self.kind);
        let rb = kind_rank_of(other.kind);
        if ra != rb {
            ra < rb
        } else {
            let la = lowercase(self.display.as_str());
            let lb = lowercase(other.display.as_str());
            lex_le_exec(la.as_str(), lb.as_str())
        }
    }
}

/// Taking views commutes with removing an element.
proof fn lemma_views_remove(s: Seq<FileEntry>, i: int)
    requires
        0 <= i < s.len(),
    ensures
        views_of(s.remove(i)) =~= views_of(s).remove(i),
{
    s.remove_ensures(i);
    views_of(s).remove_ensures(i);
}

/// Taking views commutes with inserting an element.
proof fn lemma_views_insert(s: Seq<FileEntry>, i: int, x: FileEntry)
    requires
        0 <= i <= s.len(),
    ensures
        views_of(s.insert(i, x)) =~= views_of(s).insert(i, x@),
{
    s.insert_ensures(i, x);
    views_of(s).insert_ensures(i, x@);
}

/// Inserting an element anywhere adds exactly it to the multiset.
proof fn lemma_insert_to_multiset<A>(s: Seq<A>, i: int, x: A)
    requires
        0 <= i <= s.len(),
    ensures
        s.insert(i, x).to_multiset() =~= s.to_multiset().insert(x),
{
    broadcast use vstd::seq_lib::group_to_multiset_ensures;

    let t = s.insert(i, x);
    assert(t.remove(i) =~= s);
    assert(t.remove(i).to_multiset() =~= t.to_multiset().remove(t[i]));
    assert(t[i] == x);
    assert(t.to_multiset().contains(x)) by {
        assert(t.contains(x));
    }
    assert(t.to_multiset().remove(x).insert(x) =~= t.to_multiset());
}

/// Sorts the entries into listing order: kinds first, then names
/// case-insensitively. The result is a permutation of the input, and sorting
/// an already sorted sequence leaves it exactly as it is, so the sort is
/// idempotent.
#[verifier::loop_isolation(false)]
pub fn sort_entries(v: &mut Vec<FileEntry>)
    ensures
        final(v)@.len() == old(v)@.len(),
        sorted_entries(views_of(final(v)@)),
        views_of(final(v)@).to_multiset() == views_of(old(v)@).to_multiset(),
        sorted_entries(views_of(old(v)@)) ==> final(v)@ == old(v)@,
{
    broadcast use vstd::seq_lib::group_to_multiset_ensures;

    let ghost orig = v@;
    let mut i: usize = 1;
    while i < v.len()
        invariant
            1 <= i || v@.len() <= 1,
            i <= v@.len() || v@.len() <= 1,
            v@.len() == orig.len(),
            sorted_entries(views_of(v@).subrange(0, i as int)) || i > v@.len(),
            views_of(v@).to_multiset() == views_of(orig).to_multiset(),
            sorted_entries(views_of(orig)) ==> v@ == orig,
        decreases v@.len() - i,
    {
        let ghost pre = v@;
        let mut j: usize = i;
        while j > 0 && !(v[j - 1].le(&v[i]))
            invariant
                0 <= j <= i < v@.len(),
                v@ == pre,
                forall|p: int|
                    j <= p < i ==> entry_le(views_of(v@)[i as int], #[trigger] views_of(
                        v@,
                    )[p]),
                sorted_entries(views_of(orig)) ==> (v@ == orig && j == i),
            decreases j,
        {
            proof {
                lemma_entry_le_total(views_of(v@)[j - 1], views_of(v@)[i as int]);
            }
            j = j - 1;
        }
        let ghost vs = views_of(v@);
        proof {
            if sorted_entries(views_of(orig)) {
                assert(j == i);
            }
            // everything before the insertion point is no later than the
            // pivot: the scan stopped on entry_le(vs[j-1], vs[i]), and the
            // sorted prefix carries that down through transitivity
            if j > 0 {
                let svs = vs.subrange(0, i as int);
                assert forall|p: int| 0 <= p < j implies entry_le(#[trigger] vs[p], vs[i as int]) by {
                    if p < j - 1 {
                        assert(entry_le(svs[p], svs[j - 1]));
                        assert(svs[p] == vs[p]);
                        assert(svs[j - 1] == vs[j - 1]);
                        lemma_entry_le_trans(vs[p], vs[j - 1], vs[i as int]);
                    }
                }
            }
        }
        let x = v.remove(i);
        v.insert(j, x);
        proof {
            let post = v@;
            let mid = pre.remove(i as int);
            assert(post == mid.insert(j as int, x));
            lemma_views_remove(pre, i as int);
            lemma_views_insert(mid, j as int, x);
            assert(x@ == vs[i as int]);
            assert(views_of(post) =~= views_of(pre).remove(i as int).insert(j as int, vs[i as int]));
            assert(views_of(post).to_multiset() =~= views_of(pre).to_multiset()) by {
                assert(views_of(pre).remove(i as int).to_multiset() =~= views_of(
                    pre,
                ).to_multiset().remove(vs[i as int])) by {
                    assert(views_of(pre)[i as int] == vs[i as int]);
                }
                lemma_insert_to_multiset(views_of(pre).remove(i as int), j as int, vs[i as int]);
                assert(views_of(pre).to_multiset().contains(vs[i as int])) by {
                    assert(views_of(pre)[i as int] == vs[i as int]);
                    assert(views_of(pre).contains(vs[i as int]));
                }
                assert(views_of(pre).to_multiset().remove(vs[i as int]).insert(vs[i as int]) =~= views_of(
                    pre,
                ).to_multiset());
            }
            let nvs = views_of(post);
            assert(sorted_entries(nvs.subrange(0, i as int + 1))) by {
                views_of(pre).remove_ensures(i as int);
                views_of(pre).remove(i as int).insert_ensures(j as int, vs[i as int]);
                assert(forall|k: int| 0 <= k < j ==> #[trigger] nvs[k] == vs[k]);
                assert(nvs[j as int] == vs[i as int]);
                assert(forall|k: int| j < k <= i ==> #[trigger] nvs[k] == vs[k - 1]);
                let svs = vs.subrange(0, i as int);
                assert(forall|k: int| 0 <= k < i ==> #[trigger] svs[k] == vs[k]);
                assert forall|p: int, q: int| 0 <= p < q < i + 1 implies entry_le(
                    #[trigger] nvs[p],
                    #[trigger] nvs[q],
                ) by {
                    if q < j {
                        assert(entry_le(svs[p], svs[q]));
                    } else if q == j {
                        assert(entry_le(vs[p], vs[i as int]));
                    } else if p < j {
                        assert(entry_le(svs[p], svs[q - 1]));
                    } else if p == j {
                        assert(entry_le(vs[i as int], vs[q - 1]));
                    } else {
                        assert(entry_le(svs[p - 1], svs[q - 1]));
                    }
                }
            }
            if sorted_entries(views_of(orig)) {
                assert(post =~= pre);
            }
        }
        i = i + 1;
    }
    proof {
        if v.len() > 1 {
            assert(views_of(v@).subrange(0, v@.len() as int) =~= views_of(v@));
        } else {
            assert(sorted_entries(views_of(v@)));
        }
        if sorted_entries(views_of(orig)) {
            assert(v@ == orig);
        }
    }
}

/// The view of the synthetic parent entry for a parent path.
pub open spec fn parent_entry_view(path: Seq<char>) -> EntryView {
    EntryView { kind: FileEntryKind::Parent, display: seq!['.', '.'], path: path }
}

/// The view of the entry a raw child becomes: directories get a trailing
/// slash on their display name.
pub open spec fn entry_of_raw(r: RawView) -> EntryView {
    EntryView {
        kind: if r.is_dir {
            FileEntryKind::Directory
        } else {
            FileEntryKind::File
        },
        display: if r.is_dir {
            r.name.push('/')
        } else {
            r.name
        },
        path: r.path,
    }
}

/// The entries a listing holds before sorting: the synthetic parent, when
/// the directory has one, followed by one entry per child.
pub open spec fn listing_views(parent: Option<String>, children: Seq<RawEntry>) -> Seq<EntryView> {
    let kids = children.map_values(|r: RawEntry| entry_of_raw(r@));
    match parent {
        Some(p) => seq![parent_entry_view(p@)] + kids,
        None => kids,
    }
}

/// The sorted entry list for one directory, with the cursor and the index of
/// the first visible row.
#[derive(Debug)]
pub struct DirectoryListState {
    pub directory: String,
    pub entries: Vec<FileEntry>,
    pub cursor: usize,
    pub window_start: usize,
}

impl DirectoryListState {
    /// The cursor stays inside the entries whenever there are any.
    pub open spec fn wf(&self) -> bool {
        &&& (self.entries@.len() == 0 ==> self.cursor == 0)
        &&& (self.entries@.len() > 0 ==> (self.cursor as int) < self.entries@.len())
    }

    /// Builds the listing for `directory` from what the filesystem reported:
    /// a parent path when the directory has one, and its children. The
    /// entries come out sorted in listing order and the cursor and window
    /// rest at the top.
    pub fn read(directory: String, parent: Option<String>, children: Vec<RawEntry>) -> (r:
        DirectoryListState)
        ensures
            r.wf(),
            r.directory == directory,
            r.cursor == 0,
            r.window_start == 0,
            sorted_entries(views_of(r.entries@)),
            views_of(r.entries@).to_multiset() == listing_views(parent, children@).to_multiset(),
            r.entries@.len() == listing_views(parent, children@).len(),
    {
        broadcast use vstd::seq_lib::group_to_multiset_ensures;

        let ghost target = listing_views(parent, children@);
        let mut entries: Vec<FileEntry> = Vec::new();
        let ghost offset: int = if parent is Some {
            1int
        } else {
            0int
        };
        match parent {
            Some(p) => {
                let dots = String::from_str("..");
                proof {
                    reveal_strlit("..");
                    assert(dots@ =~= seq!['.', '.']);
                }
                entries.push(FileEntry { kind: FileEntryKind::Parent, display: dots, path: p });
                proof {
                    assert(views_of(entries@) =~= target.subrange(0, 1));
                }
            },
            None => {
                proof {
                    assert(views_of(entries@) =~= target.subrange(0, 0));
                }
            },
        }
        let mut i: usize = 0;
        while i < children.len()
            invariant
                0 <= i <= children@.len(),
                entries@.len() == offset + i,
                offset == if parent is Some {
                    1int
                } else {
                    0int
                },
                target == listing_views(parent, children@),
                target.len() == offset + children@.len(),
                views_of(entries@) =~= target.subrange(0, offset + i),
            decreases children@.len() - i,
        {
            let child = &children[i];
            let mut display = child.name.clone();
            let kind: FileEntryKind;
            if child.is_dir {
                display.append("/");
                kind = FileEntryKind::Directory;
                proof {
                    reveal_strlit("/");
                    assert(display@ =~= child.name@.push('/'));
                }
            } else {
                kind = FileEntryKind::File;
            }
            entries.push(FileEntry { kind, display, path: child.path.clone() });
            proof {
                let kids = children@.map_values(|r: RawEntry| entry_of_raw(r@));
                assert(kids[i as int] == entry_of_raw(children@[i as int]@));
                assert(target[offset + i] == kids[i as int]);
                assert(views_of(entries@) =~= target.subrange(0, offset + i + 1));
            }
            i = i + 1;
        }
        proof {
            assert(views_of(entries@) =~= target);
        }
        sort_entries(&mut entries);
        DirectoryListState { directory, entries, cursor: 0, window_start: 0 }
    }

    /// Moves the cursor one entry up, stopping at the top.
    pub fn cursor_up(&mut self)
        ensures
            final(self).cursor as int == if old(self).cursor > 0 {
                old(self).cursor - 1
            } else {
                0
            },
            final(self).entries == old(self).entries,
            final(self).directory == old(self).directory,
            final(self).window_start == old(self).window_start,
            old(self).wf() ==> final(self).wf(),
    {
        if self.cursor > 0 {
            self.cursor = self.cursor - 1;
        }
    }

    /// Moves the cursor one entry down, stopping at the last entry.
    pub fn cursor_down(&mut self)
        ensures
            final(self).cursor as int == if old(self).entries@.len() > 0 && (old(self).cursor
                as int) < old(self).entries@.len() - 1 {
                old(self).cursor + 1
            } else {
                old(self).cursor as int
            },
            final(self).entries == old(self).entries,
            final(self).directory == old(self).directory,
            final(self).window_start == old(self).window_start,
            old(self).wf() ==> final(self).wf(),
    {
        if self.entries.len() > 0 && self.cursor < self.entries.len() - 1 {
            self.cursor = self.cursor + 1;
        }
    }
}

/// An entry matches the find target when its display name starts with it,
/// case-insensitively.
pub open spec fn matches_target(e: EntryView, target: Seq<char>) -> bool {
    is_prefix_of(lower_of(target), lower_of(e.display))
}

/// Whether a display name matches a find target, case-insensitively; the
/// test the search and the highlighter share.
pub fn find_should_match(display: &str, target: &str) -> (r: bool)
    ensures
        r == is_prefix_of(lower_of(target@), lower_of(display@)),
{
    let ld = lowercase(display);
    let lt = lowercase(target);
    starts_with_exec(ld.as_str(), lt.as_str())
}

/// `idx` is the first entry from the top that matches `target`.
pub open spec fn find_from_top_ok(entries: Seq<EntryView>, target: Seq<char>, idx: int) -> bool {
    &&& 0 <= idx < entries.len()
    &&& matches_target(entries[idx], target)
    &&& forall|j: int| 0 <= j < idx ==> !matches_target(#[trigger] entries[j], target)
}

/// The index visited at step `k` of a forward scan that starts just after
/// `cursor` and wraps past the end of the list.
pub open spec fn wrap_step(cursor: int, k: int, len: int) -> int {
    if cursor + 1 + k < len {
        cursor + 1 + k
    } else {
        cursor + 1 + k - len
    }
}

/// Step `k` of the wrapping scan from `cursor` lands on the first match.
pub open spec fn find_next_ok(
    entries: Seq<EntryView>,
    cursor: int,
    target: Seq<char>,
    k: int,
) -> bool {
    &&& 0 <= k < entries.len()
    &&& matches_target(entries[wrap_step(cursor, k, entries.len() as int)], target)
    &&& forall|j: int|
        0 <= j < k ==> !matches_target(
            #[trigger] entries[wrap_step(cursor, j, entries.len() as int)],
            target,
        )
}

/// The wrapping scan visits every index of the list within `len` steps, so a
/// search that exhausts it has seen the whole list, the old cursor position
/// included.
pub proof fn lemma_wrap_scan_covers(cursor: int, len: int, idx: int)
    requires
        0 <= cursor < len,
        0 <= idx < len,
    ensures
        exists|k: int| 0 <= k < len && wrap_step(cursor, k, len) == idx,
{
    if idx > cursor {
        assert(wrap_step(cursor, idx - cursor - 1, len) == idx);
    } else {
        assert(wrap_step(cursor, idx + len - cursor - 1, len) == idx);
    }
}

/// A wrapping search that found no match at any step has in fact tried every
/// entry of the list.
pub proof fn lemma_find_next_exhaustive(entries: Seq<EntryView>, cursor: int, target: Seq<char>)
    requires
        0 <= cursor < entries.len(),
        forall|k: int|
            0 <= k < entries.len() ==> !matches_target(
                #[trigger] entries[wrap_step(cursor, k, entries.len() as int)],
                target,
            ),
    ensures
        forall|i: int| 0 <= i < entries.len() ==> !matches_target(#[trigger] entries[i], target),
{
    assert forall|i: int| 0 <= i < entries.len() implies !matches_target(
        #[trigger] entries[i],
        target,
    ) by {
        lemma_wrap_scan_covers(cursor, entries.len() as int, i);
        let k = choose|k: int|
            0 <= k < entries.len() && wrap_step(cursor, k, entries.len() as int) == i;
        assert(!matches_target(entries[wrap_step(cursor, k, entries.len() as int)], target));
    }
}

/// Where a cursor lands when the list it pointed into is reloaded: its old
/// index, clamped into the new entries.
pub open spec fn clamped_cursor(cursor: int, len: int) -> int {
    if len == 0 {
        0
    } else if cursor < len {
        cursor
    } else {
        len - 1
    }
}

/// The outside work that applying an action asks of the surrounding binary.
/// The model never touches the filesystem itself: the binary performs the
/// effect and, where the effect names one, feeds the reloaded listing back.
#[derive(Debug, Clone, PartialEq, Eq)]
pub enum Effect {
    /// No outside work.
    Nothing,
    /// Ask the operating system to open the file at this path.
    OpenPath(String),
    /// Enumerate this directory and hand the listing to
    /// [`AppState::set_working_directory`].
    EnterDirectory(String),
    /// Remove the file at this path, then reload the current directory and
    /// hand the listing to [`AppState::refresh_working_directory`].
    RemoveFile(String),
    /// Remove the directory at this path and its contents, then reload as
    /// for [`Effect::RemoveFile`].
    RemoveDirectory(String),
    /// Create a file with this name in the current directory, then reload
    /// and hand the listing to [`AppState::finish_create`].
    CreateFile(String),
    /// Create a directory with this name, then reload as for
    /// [`Effect::CreateFile`].
    CreateDirectory(String),
    /// Reload the current directory and hand the listing to
    /// [`AppState::refresh_working_directory`].
    Reload,
}

/// The whole state the action processor owns: the current listing, the last
/// action (for the status line), and the find target with its no-match flag.
#[derive(Debug)]
pub struct AppState {
    pub last_action: Option<Action>,
    pub entry_list: DirectoryListState,
    pub find_target: String,
    pub no_find_match: bool,
}

/// The find state and the parts of the listing an action never touches are
/// carried over unchanged.
pub open spec fn same_find(pre: AppState, post: AppState) -> bool {
    &&& post.find_target == pre.find_target
    &&& post.no_find_match == pre.no_find_match
}

/// What [`AppState::process_action`] does for each action: how the cursor
/// and find state move, and which effect the surrounding binary is asked to
/// perform. The entries themselves never change here; only feeding a
/// reloaded listing back changes them.
pub open spec fn action_transition(
    pre: AppState,
    post: AppState,
    action: Action,
    e: Effect,
) -> bool {
    let views = views_of(pre.entry_list.entries@);
    let len = pre.entry_list.entries@.len() as int;
    let cur = pre.entry_list.cursor as int;
    &&& post.last_action == Some(action)
    &&& post.entry_list.directory == pre.entry_list.directory
    &&& post.entry_list.entries == pre.entry_list.entries
    &&& post.entry_list.window_start == pre.entry_list.window_start
    &&& match action {
        Action::Up(n) => {
            &&& same_find(pre, post)
            &&& e == Effect::Nothing
            &&& post.entry_list.cursor as int == if n as int >= cur {
                0int
            } else {
                cur - n as int
            }
        },
        Action::Down(n) => {
            &&& same_find(pre, post)
            &&& e == Effect::Nothing
            &&& post.entry_list.cursor as int == if len == 0 {
                cur
            } else if cur + n as int <= len - 1 {
                cur + n as int
            } else {
                len - 1
            }
        },
        Action::Top => {
            &&& same_find(pre, post)
            &&& e == Effect::Nothing
            &&& post.entry_list.cursor == 0
        },
        Action::Bottom => {
            &&& same_find(pre, post)
            &&& e == Effect::Nothing
            &&& post.entry_list.cursor as int == if len == 0 {
                0int
            } else {
                len - 1
            }
        },
        Action::Activate => {
            &&& same_find(pre, post)
            &&& post.entry_list.cursor == pre.entry_list.cursor
            &&& if len == 0 {
                e == Effect::Nothing
            } else {
                match views[cur].kind {
                    FileEntryKind::Parent | FileEntryKind::Directory => e matches
                        Effect::EnterDirectory(p) && p@ == views[cur].path,
                    FileEntryKind::File => e matches Effect::OpenPath(p) && p@ == views[cur].path,
                }
            }
        },
        Action::Delete => {
            &&& same_find(pre, post)
            &&& post.entry_list.cursor == pre.entry_list.cursor
            &&& if len == 0 {
                e == Effect::Nothing
            } else {
                match views[cur].kind {
                    FileEntryKind::Parent => e == Effect::Reload,
                    FileEntryKind::Directory => e matches Effect::RemoveDirectory(p) && p@
                        == views[cur].path,
                    FileEntryKind::File => e matches Effect::RemoveFile(p) && p@
                        == views[cur].path,
                }
            }
        },
        Action::CreateFile(name) => {
            &&& same_find(pre, post)
            &&& post.entry_list.cursor == pre.entry_list.cursor
            &&& e matches Effect::CreateFile(n) && n@ == name@
        },
        Action::CreateDirectory(name) => {
            &&& same_find(pre, post)
            &&& post.entry_list.cursor == pre.entry_list.cursor
            &&& e matches Effect::CreateDirectory(n) && n@ == name@
        },
        Action::Refresh => {
            &&& same_find(pre, post)
            &&& post.entry_list.cursor == pre.entry_list.cursor
            &&& e == Effect::Reload
        },
        Action::Find(t) => {
            &&& e == Effect::Nothing
            &&& post.find_target@ == t@
            &&& if exists|i: int| 0 <= i < len && matches_target(#[trigger] views[i], t@) {
                &&& find_from_top_ok(views, t@, post.entry_list.cursor as int)
                &&& post.no_find_match == false
            } else {
                &&& post.entry_list.cursor == 0
                &&& post.no_find_match == true
            }
        },
        Action::FindNext => {
            let target = pre.find_target@;
            &&& e == Effect::Nothing
            &&& post.find_target == pre.find_target
            &&& post.no_find_match == !(exists|i: int|
                0 <= i < len && matches_target(#[trigger] views[i], target))
            &&& if len > 0 && exists|k: int|
                0 <= k < len && matches_target(#[trigger] views[wrap_step(cur, k, len)], target) {
                exists|k: int|
                    {
                        &&& #[trigger] find_next_ok(views, cur, target, k)
                        &&& post.entry_list.cursor as int == wrap_step(cur, k, len)
                        &&& post.no_find_match == false
                    }
            } else {
                &&& post.entry_list.cursor == pre.entry_list.cursor
                &&& post.no_find_match == true
            }
        },
        Action::Quit | Action::Cancel | Action::RunCommand(_) | Action::DebugDumpVisible
            | Action::Unknown(_) => {
            &&& same_find(pre, post)
            &&& post.entry_list.cursor == pre.entry_list.cursor
            &&& e == Effect::Nothing
        },
    }
}

impl AppState {
    /// The cursor invariant of the owned listing.
    pub open spec fn wf(&self) -> bool {
        self.entry_list.wf()
    }

    /// A fresh state around an initial listing: no action yet, no find
    /// target, no failed search.
    pub fn new(entry_list: DirectoryListState) -> (r: AppState)
        ensures
            r.last_action is None,
            r.entry_list == entry_list,
            r.find_target@ == Seq::<char>::empty(),
            r.no_find_match == false,
    {
        AppState { last_action: None, entry_list, find_target: String::new(), no_find_match: false }
    }

    /// Replaces the listing wholesale, as activating a directory does. The
    /// cursor and window come with the new listing.
    pub fn set_working_directory(&mut self, listing: DirectoryListState)
        ensures
            final(self).entry_list == listing,
            final(self).last_action == old(self).last_action,
            same_find(*old(self), *final(self)),
    {
        self.entry_list = listing;
    }

    /// Replaces the listing after a reload of the same directory, keeping
    /// the cursor at its old index clamped into the new entries.
    pub fn refresh_working_directory(&mut self, listing: DirectoryListState)
        ensures
            final(self).entry_list.directory == listing.directory,
            final(self).entry_list.entries == listing.entries,
            final(self).entry_list.window_start == listing.window_start,
            final(self).entry_list.cursor as int == clamped_cursor(
                old(self).entry_list.cursor as int,
                listing.entries@.len() as int,
            ),
            final(self).last_action == old(self).last_action,
            same_find(*old(self), *final(self)),
            final(self).wf(),
    {
        let len = listing.entries.len();
        let new_cursor: usize = if len == 0 {
            0
        } else if self.entry_list.cursor < len {
            self.entry_list.cursor
        } else {
            len - 1
        };
        self.entry_list = listing;
        self.entry_list.cursor = new_cursor;
    }

    /// Scans the entries from the top for the first whose display name
    /// starts with the stored find target, case-insensitively; moves the
    /// cursor there, or records that nothing matched.
    #[verifier::loop_isolation(false)]
    pub fn perform_find(&mut self)
        requires
            old(self).wf(),
        ensures
            final(self).wf(),
            final(self).last_action == old(self).last_action,
            final(self).find_target == old(self).find_target,
            final(self).entry_list.directory == old(self).entry_list.directory,
            final(self).entry_list.entries == old(self).entry_list.entries,
            final(self).entry_list.window_start == old(self).entry_list.window_start,
            ({
                let views = views_of(old(self).entry_list.entries@);
                let target = old(self).find_target@;
                if exists|i: int|
                    0 <= i < views.len() && matches_target(#[trigger] views[i], target) {
                    &&& find_from_top_ok(views, target, final(self).entry_list.cursor as int)
                    &&& final(self).no_find_match == false
                } else {
                    &&& final(self).entry_list.cursor == old(self).entry_list.cursor
                    &&& final(self).no_find_match == true
                }
            }),
    {
        let ghost views = views_of(self.entry_list.entries@);
        let ghost target = self.find_target@;
        let lt = lowercase(self.find_target.as_str());
        let len = self.entry_list.entries.len();
        let mut i: usize = 0;
        while i < len
            invariant
                0 <= i <= len,
                *self == *old(self),
                forall|j: int| 0 <= j < i ==> !matches_target(#[trigger] views[j], target),
            decreases len - i,
        {
            let ld = lowercase(self.entry_list.entries[i].display.as_str());
            if starts_with_exec(ld.as_str(), lt.as_str()) {
                assert(matches_target(views[i as int], target));
                self.entry_list.cursor = i;
                self.no_find_match = false;
                return;
            }
            i = i + 1;
        }
        self.no_find_match = true;
    }

    /// Scans the entries strictly after the cursor, wrapping to the top so
    /// the whole list is visited once, for the first entry matching the
    /// stored find target; moves the cursor there, or records that nothing
    /// matched.
    #[verifier::loop_isolation(false)]
    pub fn perform_find_next(&mut self)
        requires
            old(self).wf(),
        ensures
            final(self).wf(),
            final(self).last_action == old(self).last_action,
            final(self).find_target == old(self).find_target,
            final(self).entry_list.directory == old(self).entry_list.directory,
            final(self).entry_list.entries == old(self).entry_list.entries,
            final(self).entry_list.window_start == old(self).entry_list.window_start,
            ({
                let views = views_of(old(self).entry_list.entries@);
                let target = old(self).find_target@;
                let len = views.len() as int;
                let cur = old(self).entry_list.cursor as int;
                if len > 0 && exists|k: int|
                    0 <= k < len && matches_target(
                        #[trigger] views[wrap_step(cur, k, len)],
                        target,
                    ) {
                    exists|k: int|
                        {
                            &&& #[trigger] find_next_ok(views, cur, target, k)
                            &&& final(self).entry_list.cursor as int == wrap_step(cur, k, len)
                            &&& final(self).no_find_match == false
                        }
                } else {
                    &&& final(self).entry_list.cursor == old(self).entry_list.cursor
                    &&& final(self).no_find_match == true
                }
            }),
            ({
                let views = views_of(old(self).entry_list.entries@);
                let target = old(self).find_target@;
                final(self).no_find_match == !(exists|i: int|
                    0 <= i < views.len() && matches_target(#[trigger] views[i], target))
            }),
    {
        let ghost views = views_of(self.entry_list.entries@);
        let ghost target = self.find_target@;
        let len = self.entry_list.entries.len();
        if len == 0 {
            self.no_find_match = true;
            return;
        }
        let lt = lowercase(self.find_target.as_str());
        let cur = self.entry_list.cursor;
        let ghost leni = len as int;
        let ghost curi = cur as int;
        let mut i: usize = cur + 1;
        while i < len
            invariant
                cur + 1 <= i <= len,
                *self == *old(self),
                forall|j: int|
                    0 <= j < i - cur - 1 ==> !matches_target(
                        #[trigger] views[wrap_step(curi, j, leni)],
                        target,
                    ),
            decreases len - i,
        {
            let ld = lowercase(self.entry_list.entries[i].display.as_str());
            if starts_with_exec(ld.as_str(), lt.as_str()) {
                proof {
                    assert(wrap_step(curi, i - cur - 1, leni) == i as int);
                    assert(find_next_ok(views, curi, target, i - cur - 1));
                    assert(matches_target(views[i as int], target));
                }
                self.entry_list.cursor = i;
                self.no_find_match = false;
                return;
            }
            assert(wrap_step(curi, i - cur - 1, leni) == i as int);
            i = i + 1;
        }
        let mut i2: usize = 0;
        while i2 <= cur
            invariant
                0 <= i2 <= cur + 1,
                *self == *old(self),
                forall|j: int|
                    0 <= j < leni - 1 - curi + i2 ==> !matches_target(
                        #[trigger] views[wrap_step(curi, j, leni)],
                        target,
                    ),
            decreases cur + 1 - i2,
        {
            let ld = lowercase(self.entry_list.entries[i2].display.as_str());
            if starts_with_exec(ld.as_str(), lt.as_str()) {
                proof {
                    assert(wrap_step(curi, leni - 1 - curi + i2, leni) == i2 as int);
                    assert(find_next_ok(views, curi, target, leni - 1 - curi + i2));
                    assert(matches_target(views[i2 as int], target));
                }
                self.entry_list.cursor = i2;
                self.no_find_match = false;
                return;
            }
            assert(wrap_step(curi, leni - 1 - curi + i2, leni) == i2 as int);
            i2 = i2 + 1;
        }
        self.no_find_match = true;
        proof {
            assert(forall|k: int|
                0 <= k < leni ==> !matches_target(
                    #[trigger] views[wrap_step(curi, k, leni)],
                    target,
                ));
            lemma_find_next_exhaustive(views, curi, target);
        }
    }

    /// The index of the first entry whose path ends in the file name `name`,
    /// if any does.
    pub fn find_entry_with_file_name(&self, name: &str) -> (r: Option<usize>)
        ensures
            ({
                let views = views_of(self.entry_list.entries@);
                match r {
                    Some(idx) => {
                        &&& 0 <= idx < views.len()
                        &&& after_last_slash(views[idx as int].path) == name@
                        &&& forall|j: int|
                            0 <= j < idx ==> after_last_slash(#[trigger] views[j].path) != name@
                    },
                    None => forall|j: int|
                        0 <= j < views.len() ==> after_last_slash(#[trigger] views[j].path)
                            != name@,
                }
            }),
    {
        let ghost views = views_of(self.entry_list.entries@);
        let len = self.entry_list.entries.len();
        let mut i: usize = 0;
        while i < len
            invariant
                0 <= i <= len,
                len == self.entry_list.entries@.len(),
                views == views_of(self.entry_list.entries@),
                forall|j: int|
                    0 <= j < i ==> after_last_slash(#[trigger] views[j].path) != name@,
            decreases len - i,
        {
            if file_name_matches(self.entry_list.entries[i].path.as_str(), name) {
                assert(after_last_slash(views[i as int].path) == name@);
                return Some(i);
            }
            i = i + 1;
        }
        None
    }

    /// Replaces the listing after a create: the cursor moves to the entry
    /// whose path's final segment equals `name` when one exists, and
    /// otherwise stays at its old index clamped into the new entries.
    pub fn finish_create(&mut self, name: &str, listing: DirectoryListState)
        ensures
            final(self).entry_list.directory == listing.directory,
            final(self).entry_list.entries == listing.entries,
            final(self).entry_list.window_start == listing.window_start,
            final(self).last_action == old(self).last_action,
            same_find(*old(self), *final(self)),
            final(self).wf(),
            ({
                let views = views_of(listing.entries@);
                if exists|i: int|
                    0 <= i < views.len() && after_last_slash(#[trigger] views[i].path) == name@ {
                    let c = final(self).entry_list.cursor;
                    &&& 0 <= c < views.len()
                    &&& after_last_slash(views[c as int].path) == name@
                    &&& forall|j: int|
                        0 <= j < c ==> after_last_slash(#[trigger] views[j].path) != name@
                } else {
                    final(self).entry_list.cursor as int == clamped_cursor(
                        old(self).entry_list.cursor as int,
                        listing.entries@.len() as int,
                    )
                }
            }),
    {
        self.refresh_working_directory(listing);
        match self.find_entry_with_file_name(name) {
            Some(idx) => {
                self.entry_list.cursor = idx;
            },
            None => {},
        }
    }

    /// Applies one action to the model and says what outside work it asks
    /// for. The cursor stays inside the entries; the entries themselves only
    /// change when the binary later feeds a reloaded listing back in.
    pub fn process_action(&mut self, action: Action) -> (e: Effect)
        requires
            old(self).wf(),
        ensures
            final(self).wf(),
            action_transition(*old(self), *final(self), action, e),
    {
        let e = match &action {
            Action::Up(count) => {
                let n = *count;
                let c = self.entry_list.cursor;
                if n >= c as u64 {
                    self.entry_list.cursor = 0;
                } else {
                    self.entry_list.cursor = c - n as usize;
                }
                Effect::Nothing
            },
            Action::Down(count) => {
                let n = *count;
                let len = self.entry_list.entries.len();
                if len > 0 {
                    let max_cursor = len - 1;
                    let stretched: u128 = self.entry_list.cursor as u128 + n as u128;
                    if stretched >= max_cursor as u128 {
                        self.entry_list.cursor = max_cursor;
                    } else {
                        self.entry_list.cursor = stretched as usize;
                    }
                }
                Effect::Nothing
            },
            Action::Top => {
                self.entry_list.cursor = 0;
                Effect::Nothing
            },
            Action::Bottom => {
                let len = self.entry_list.entries.len();
                if len > 0 {
                    self.entry_list.cursor = len - 1;
                } else {
                    self.entry_list.cursor = 0;
                }
                Effect::Nothing
            },
            Action::Activate => {
                if self.entry_list.entries.len() == 0 {
                    Effect::Nothing
                } else {
                    let entry = &self.entry_list.entries[self.entry_list.cursor];
                    match entry.kind {
                        FileEntryKind::Parent | FileEntryKind::Directory => Effect::EnterDirectory(
                            entry.path.clone(),
                        ),
                        FileEntryKind::File => Effect::OpenPath(entry.path.clone()),
                    }
                }
            },
            Action::Delete => {
                if self.entry_list.entries.len() == 0 {
                    Effect::Nothing
                } else {
                    let entry = &self.entry_list.entries[self.entry_list.cursor];
                    match entry.kind {
                        FileEntryKind::Parent => Effect::Reload,
                        FileEntryKind::Directory => Effect::RemoveDirectory(entry.path.clone()),
                        FileEntryKind::File => Effect::RemoveFile(entry.path.clone()),
                    }
                }
            },
            Action::CreateFile(name) => Effect::CreateFile(name.clone()),
            Action::CreateDirectory(name) => Effect::CreateDirectory(name.clone()),
            Action::Refresh => Effect::Reload,
            Action::Find(target) => {
                self.find_target = target.clone();
                self.entry_list.cursor = 0;
                self.perform_find();
                Effect::Nothing
            },
            Action::FindNext => {
                self.perform_find_next();
                Effect::Nothing
            },
            Action::Quit | Action::Cancel | Action::RunCommand(_) | Action::DebugDumpVisible
                | Action::Unknown(_) => Effect::Nothing,
        };
        self.last_action = Some(action);
        e
    }
}

} // verus!
