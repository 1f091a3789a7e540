//! Comment threads: the parent-to-replies map, decrypted comments by id, and the materialized reply forest with its JSON rendering.
use vstd::prelude::*;
use vstd::string::*;
use crate::encoding::{json_string, json_string_of};
use crate::error::PbResult;
use crate::privatebin::{comment_list, Comment, DecryptedComment, Paste};

verus! {

/// Texts of a list of strings.
pub open spec fn ids_view(v: Seq<String>) -> Seq<Seq<char>> {
    v.map_values(|s: String| s@)
}

/// Ids of the comments whose parent is `parent`, in list order.
pub open spec fn children_in(comments: Seq<Comment>, parent: Seq<char>) -> Seq<Seq<char>>
    decreases comments.len(),
{
    if comments.len() == 0 {
        Seq::empty()
    } else {
        let rest = children_in(comments.drop_last(), parent);
        if comments.last().parentid@ == parent {
            rest.push(comments.last().id@)
        } else {
            rest
        }
    }
}

/// A parent has children in a list exactly when some comment of it names that parent.
proof fn lemma_children_in_empty(comments: Seq<Comment>, parent: Seq<char>)
    ensures
        children_in(comments, parent).len() == 0 <==> forall|k: int| 0 <= k < comments.len() ==> comments[k].parentid@ != parent,
    decreases comments.len(),
{
    if comments.len() > 0 {
        lemma_children_in_empty(comments.drop_last(), parent);
        if children_in(comments, parent).len() == 0 {
            assert forall|k: int| 0 <= k < comments.len() implies comments[k].parentid@ != parent by {
                if k < comments.len() - 1 {
                    assert(comments[k] == comments.drop_last()[k]);
                }
            }
        } else {
            if comments.last().parentid@ != parent {
                let k = choose|k: int| 0 <= k < comments.drop_last().len() && comments.drop_last()[k].parentid@ == parent;
                assert(comments[k] == comments.drop_last()[k]);
            }
        }
    }
}

/// Last entry of `entries` under key `key`, as texts.
pub open spec fn entries_lookup(entries: Seq<(String, Vec<String>)>, key: Seq<char>) -> Option<Seq<Seq<char>>>
    decreases entries.len(),
{
    if entries.len() == 0 {
        None
    } else if entries.last().0@ == key {
        Some(ids_view(entries.last().1@))
    } else {
        entries_lookup(entries.drop_last(), key)
    }
}

proof fn lemma_lookup_finds_key(entries: Seq<(String, Vec<String>)>, key: Seq<char>)
    ensures
        entries_lookup(entries, key) is Some ==> exists|i: int| 0 <= i < entries.len() && entries[i].0@ == key,
    decreases entries.len(),
{
    if entries.len() > 0 && entries.last().0@ != key {
        lemma_lookup_finds_key(entries.drop_last(), key);
        if entries_lookup(entries, key) is Some {
            let i = choose|i: int| 0 <= i < entries.drop_last().len() && entries.drop_last()[i].0@ == key;
            assert(entries[i] == entries.drop_last()[i]);
        }
    }
}

/// For each parent id, the ids of its direct replies in the order the comments were listed.
pub struct CommentsAdjacencyMap {
    entries: Vec<(String, Vec<String>)>,
}

impl CommentsAdjacencyMap {
    /// The reply ids recorded under `parent`, if any.
    pub closed spec fn lookup(&self, parent: Seq<char>) -> Option<Seq<Seq<char>>> {
        entries_lookup(self.entries@, parent)
    }

    /// The reply ids of `parent`; none when it has no entry.
    pub open spec fn children(&self, parent: Seq<char>) -> Seq<Seq<char>> {
        match self.lookup(parent) {
            Some(ids) => ids,
            None => Seq::empty(),
        }
    }

    /// Number of parents with an entry: the number of levels a thread can have.
    pub closed spec fn spec_parent_count(&self) -> nat {
        self.entries@.len()
    }

    /// Number of parents with an entry.
    pub fn parent_count(&self) -> (r: usize)
        ensures
            r == self.spec_parent_count(),
    {
        self.entries.len()
    }

    /// Every id with recorded replies is among the first `spec_parent_count`
    /// parents, as a list.
    proof fn lemma_parent_keys(&self, q: Seq<char>)
        ensures
            self.parent_keys().len() == self.spec_parent_count(),
            self.children(q).len() > 0 ==> self.parent_keys().contains(q),
    {
        lemma_lookup_finds_key(self.entries@, q);
        if self.children(q).len() > 0 {
            let i = choose|i: int| 0 <= i < self.entries@.len() && self.entries@[i].0@ == q;
            assert(self.parent_keys()[i] == q);
        }
    }

    /// The parent ids of the entries, in order.
    closed spec fn parent_keys(&self) -> Seq<Seq<char>> {
        self.entries@.map_values(|e: (String, Vec<String>)| e.0@)
    }

    /// Returns the reply ids recorded under `parent`.
    pub fn get(&self, parent: &String) -> (r: Option<&Vec<String>>)
        ensures
            match r {
                Some(ids) => self.lookup(parent@) == Some(ids_view(ids@)),
                None => self.lookup(parent@) is None,
            },
    {
        let mut i = self.entries.len();
        assert(self.entries@.take(i as int) =~= self.entries@);
        while i > 0
            invariant
                i <= self.entries@.len(),
                entries_lookup(self.entries@, parent@) == entries_lookup(self.entries@.take(i as int), parent@),
            decreases i,
        {
            assert(self.entries@.take(i as int).drop_last() =~= self.entries@.take(i - 1));
            i = i - 1;
            if self.entries[i].0 == *parent {
                return Some(&self.entries[i].1);
            }
        }
        None
    }
}

/// Ids of the comments in `comments` that reply to `parent`, in list order.
fn child_ids(comments: &Vec<Comment>, parent: &String) -> (r: Vec<String>)
    ensures
        ids_view(r@) == children_in(comments@, parent@),
{
    let mut ids: Vec<String> = Vec::new();
    let mut i: usize = 0;
    while i < comments.len()
        invariant
            i <= comments@.len(),
            ids_view(ids@) == children_in(comments@.take(i as int), parent@),
        decreases comments.len() - i,
    {
        assert(comments@.take(i + 1).drop_last() =~= comments@.take(i as int));
        if comments[i].parentid == *parent {
            let ghost before = ids@;
            ids.push(comments[i].id.clone());
            assert(ids_view(ids@) =~= ids_view(before).push(comments@[i as int].id@));
        }
        i = i + 1;
    }
    assert(comments@.take(comments@.len() as int) =~= comments@);
    ids
}

impl Paste {
    /// Groups the comment ids under the id of the comment (or paste) they reply
    /// to, keeping the order of the comment list.
    pub fn comments_adjacency_map(&self) -> (r: PbResult<CommentsAdjacencyMap>)
        ensures
            r matches Ok(adj) && forall|p: Seq<char>| #[trigger] adj.lookup(p) == if children_in(comment_list(*self), p).len() > 0 {
                Some(children_in(comment_list(*self), p))
            } else {
                None::<Seq<Seq<char>>>
            },
    {
        let mut adj = CommentsAdjacencyMap { entries: Vec::new() };
        if let Some(comments) = &self.comments {
            let ghost cs = comments@;
            let mut i: usize = 0;
            while i < comments.len()
                invariant
                    cs == comments@,
                    i <= cs.len(),
                    forall|p: Seq<char>| #[trigger] entries_lookup(adj.entries@, p) == if exists|k: int| 0 <= k < i && cs[k].parentid@ == p {
                        Some(children_in(cs, p))
                    } else {
                        None::<Seq<Seq<char>>>
                    },
                decreases cs.len() - i,
            {
                let parent = &comments[i].parentid;
                if adj.get(parent).is_none() {
                    let kids = child_ids(comments, parent);
                    let ghost before = adj.entries@;
                    adj.entries.push((parent.clone(), kids));
                    assert forall|p: Seq<char>| #[trigger] entries_lookup(adj.entries@, p) == if exists|k: int| 0 <= k < i + 1 && cs[k].parentid@ == p {
                        Some(children_in(cs, p))
                    } else {
                        None::<Seq<Seq<char>>>
                    } by {
                        assert(adj.entries@.drop_last() =~= before);
                        if p == parent@ {
                            assert(cs[i as int].parentid@ == p);
                            assert(adj.entries@.last().0@ == p);
                            assert(entries_lookup(adj.entries@, p) == Some(ids_view(adj.entries@.last().1@)));
                            assert(ids_view(adj.entries@.last().1@) == children_in(cs, p));
                        } else {
                            assert(entries_lookup(adj.entries@, p) == entries_lookup(before, p));
                            if exists|k: int| 0 <= k < i + 1 && cs[k].parentid@ == p {
                                let k = choose|k: int| 0 <= k < i + 1 && cs[k].parentid@ == p;
                                assert(k < i);
                            }
                        }
                    }
                } else {
                    assert forall|p: Seq<char>| #[trigger] entries_lookup(adj.entries@, p) == if exists|k: int| 0 <= k < i + 1 && cs[k].parentid@ == p {
                        Some(children_in(cs, p))
                    } else {
                        None::<Seq<Seq<char>>>
                    } by {
                        if p == parent@ {
                            assert(exists|k: int| 0 <= k < i && cs[k].parentid@ == p);
                        } else if exists|k: int| 0 <= k < i + 1 && cs[k].parentid@ == p {
                            let k = choose|k: int| 0 <= k < i + 1 && cs[k].parentid@ == p;
                            assert(k < i);
                        }
                    }
                }
                i = i + 1;
            }
            assert forall|p: Seq<char>| #[trigger] adj.lookup(p) == if children_in(comment_list(*self), p).len() > 0 {
                Some(children_in(comment_list(*self), p))
            } else {
                None::<Seq<Seq<char>>>
            } by {
                lemma_children_in_empty(cs, p);
            }
        } else {
            assert forall|p: Seq<char>| #[trigger] adj.lookup(p) == if children_in(comment_list(*self), p).len() > 0 {
                Some(children_in(comment_list(*self), p))
            } else {
                None::<Seq<Seq<char>>>
            } by {
                assert(comment_list(*self).len() == 0);
            }
        }
        Ok(adj)
    }
}

/// Last decrypted comment stored under `id`.
pub open spec fn decrypted_lookup(entries: Seq<(String, DecryptedComment)>, id: Seq<char>) -> Option<DecryptedComment>
    decreases entries.len(),
{
    if entries.len() == 0 {
        None
    } else if entries.last().0@ == id {
        Some(entries.last().1)
    } else {
        decrypted_lookup(entries.drop_last(), id)
    }
}

/// Decrypted comments by comment id; inserting under an id already present
/// replaces its comment.
pub struct DecryptedCommentsMap {
    entries: Vec<(String, DecryptedComment)>,
}

impl DecryptedCommentsMap {
    /// The decrypted comment stored under `id`.
    pub closed spec fn lookup(&self, id: Seq<char>) -> Option<DecryptedComment> {
        decrypted_lookup(self.entries@, id)
    }

    /// Whether nothing has been stored.
    pub closed spec fn spec_is_empty(&self) -> bool {
        self.entries@.len() == 0
    }

    /// The empty map.
    pub fn new() -> (r: DecryptedCommentsMap)
        ensures
            r.spec_is_empty(),
            forall|id: Seq<char>| #[trigger] r.lookup(id) is None,
    {
        DecryptedCommentsMap { entries: Vec::new() }
    }

    /// Stores `comment` under `id`, replacing what was stored there.
    pub fn insert(&mut self, id: String, comment: DecryptedComment)
        ensures
            !final(self).spec_is_empty(),
            forall|k: Seq<char>| #[trigger] final(self).lookup(k) == if k == id@ {
                Some(comment)
            } else {
                old(self).lookup(k)
            },
    {
        let ghost before = self.entries@;
        let ghost key = id@;
        self.entries.push((id, comment));
        assert(self.entries@.drop_last() =~= before);
        assert forall|k: Seq<char>| #[trigger] self.lookup(k) == if k == key {
            Some(comment)
        } else {
            decrypted_lookup(before, k)
        } by {
            assert(self.entries@.drop_last() =~= before);
        }
    }

    /// Returns the decrypted comment stored under `id`.
    pub fn get(&self, id: &String) -> (r: Option<&DecryptedComment>)
        ensures
            match r {
                Some(c) => self.lookup(id@) == Some(*c),
                None => self.lookup(id@) is None,
            },
    {
        let mut i = self.entries.len();
        assert(self.entries@.take(i as int) =~= self.entries@);
        while i > 0
            invariant
                i <= self.entries@.len(),
                decrypted_lookup(self.entries@, id@) == decrypted_lookup(self.entries@.take(i as int), id@),
            decreases i,
        {
            assert(self.entries@.take(i as int).drop_last() =~= self.entries@.take(i - 1));
            i = i - 1;
            if self.entries[i].0 == *id {
                return Some(&self.entries[i].1);
            }
        }
        None
    }

    /// Whether nothing has been stored.
    pub fn is_empty(&self) -> (r: bool)
        ensures
            r == self.spec_is_empty(),
    {
        self.entries.len() == 0
    }
}

/// One comment of a thread with its replies, ready for display.
#[derive(Debug)]
pub struct CommentNode {
    pub id: String,
    pub comment: String,
    pub nickname: Option<String>,
    pub replies: Vec<CommentNode>,
}

/// Children of a node that are not already on the way down to it, in order;
/// a reply that points back up the thread is left out.
pub open spec fn visible_children(kids: Seq<Seq<char>>, path: Seq<Seq<char>>) -> Seq<Seq<char>>
    decreases kids.len(),
{
    if kids.len() == 0 {
        Seq::empty()
    } else {
        let rest = visible_children(kids.drop_last(), path);
        if path.contains(kids.last()) {
            rest
        } else {
            rest.push(kids.last())
        }
    }
}

/// `replies` are the materialized replies to `id`, reached by way of `path`,
/// with `depth` levels left to expand.
pub open spec fn are_replies(
    replies: Seq<CommentNode>,
    id: Seq<char>,
    decrypted: DecryptedCommentsMap,
    adjacency: CommentsAdjacencyMap,
    path: Seq<Seq<char>>,
    depth: nat,
) -> bool
    decreases depth, 0nat,
{
    let kids = visible_children(adjacency.children(id), path.push(id));
    if depth == 0 {
        replies.len() == 0
    } else {
        &&& replies.len() == kids.len()
        &&& forall|i: int| 0 <= i < kids.len() ==> is_comment_tree(#[trigger] replies[i], kids[i], decrypted, adjacency, path.push(id), (depth - 1) as nat)
    }
}

/// `n` is the materialized thread below the comment `id`: its decrypted body
/// and nickname (an empty body and no nickname when it was not decrypted), and
/// its replies in order.
pub open spec fn is_comment_tree(
    n: CommentNode,
    id: Seq<char>,
    decrypted: DecryptedCommentsMap,
    adjacency: CommentsAdjacencyMap,
    path: Seq<Seq<char>>,
    depth: nat,
) -> bool
    decreases depth, 1nat,
{
    &&& n.id@ == id
    &&& match decrypted.lookup(id) {
        Some(d) => n.comment == d.comment && n.nickname == d.nickname,
        None => n.comment@ == Seq::<char>::empty() && n.nickname is None,
    }
    &&& are_replies(n.replies@, id, decrypted, adjacency, path, depth)
}

fn path_contains(path: &Vec<String>, id: &String) -> (r: bool)
    ensures
        r == ids_view(path@).contains(id@),
{
    let mut i: usize = 0;
    while i < path.len()
        invariant
            i <= path@.len(),
            forall|k: int| 0 <= k < i ==> path@[k]@ != id@,
        decreases path.len() - i,
    {
        if path[i] == *id {
            assert(ids_view(path@)[i as int] == id@);
            return true;
        }
        i = i + 1;
    }
    proof {
        if ids_view(path@).contains(id@) {
            let k = choose|k: int| 0 <= k < ids_view(path@).len() && ids_view(path@)[k] == id@;
            assert(path@[k]@ == id@);
        }
    }
    false
}

fn copy_nickname(n: &Option<String>) -> (r: Option<String>)
    ensures
        r == *n,
{
    match n {
        Some(s) => Some(s.clone()),
        None => None,
    }
}

fn build_node(
    id: &String,
    decrypted: &DecryptedCommentsMap,
    adjacency: &CommentsAdjacencyMap,
    path: &mut Vec<String>,
    depth: usize,
) -> (r: CommentNode)
    ensures
        final(path)@ == old(path)@,
        is_comment_tree(r, id@, *decrypted, *adjacency, ids_view(old(path)@), depth as nat),
    decreases depth,
{
    let (comment, nickname) = match decrypted.get(id) {
        Some(d) => (d.comment.clone(), copy_nickname(&d.nickname)),
        None => (String::new(), None),
    };
    let ghost p0 = ids_view(path@);
    let mut replies: Vec<CommentNode> = Vec::new();
    if depth > 0 {
        let ghost start = path@;
        path.push(id.clone());
        let ghost below = ids_view(path@);
        assert(below =~= p0.push(id@));
        match adjacency.get(id) {
            None => {
                assert(visible_children(adjacency.children(id@), below) =~= Seq::<Seq<char>>::empty());
            },
            Some(kids) => {
                let mut j: usize = 0;
                while j < kids.len()
                    invariant
                        j <= kids@.len(),
                        path@ == start.push(*id),
                        ids_view(path@) == below,
                        below == p0.push(id@),
                        adjacency.children(id@) == ids_view(kids@),
                        depth > 0,
                        replies@.len() == visible_children(ids_view(kids@).take(j as int), below).len(),
                        forall|i: int| 0 <= i < replies@.len() ==> is_comment_tree(#[trigger] replies@[i],
                            visible_children(ids_view(kids@).take(j as int), below)[i], *decrypted, *adjacency, below, (depth - 1) as nat),
                    decreases kids.len() - j,
                {
                    let ghost vis = visible_children(ids_view(kids@).take(j as int), below);
                    assert(ids_view(kids@).take(j + 1).drop_last() =~= ids_view(kids@).take(j as int));
                    assert(ids_view(kids@).take(j + 1).last() == kids@[j as int]@);
                    if !path_contains(path, &kids[j]) {
                        let child = build_node(&kids[j], decrypted, adjacency, path, depth - 1);
                        replies.push(child);
                        assert(visible_children(ids_view(kids@).take(j + 1), below) == vis.push(kids@[j as int]@));
                    } else {
                        assert(visible_children(ids_view(kids@).take(j + 1), below) == vis);
                    }
                    j = j + 1;
                }
                assert(ids_view(kids@).take(kids@.len() as int) =~= ids_view(kids@));
            },
        }
        path.pop();
        assert(path@ =~= start);
    }
    CommentNode { id: id.clone(), comment, nickname, replies }
}

impl Paste {
    /// The comment threads of the paste: its direct replies, each with its own
    /// replies in list order. A comment that was not decrypted keeps its place
    /// and its replies, with an empty body. Threads are expanded as many levels
    /// deep as the map has parents, which cuts none
    /// (`lemma_threads_expand_fully`).
    pub fn comments_forest(&self, decrypted: &DecryptedCommentsMap, adjacency: &CommentsAdjacencyMap) -> (r: Vec<CommentNode>)
        ensures
            are_replies(r@, self.id@, *decrypted, *adjacency, Seq::empty(), adjacency.spec_parent_count()),
    {
        let depth = adjacency.parent_count();
        let mut path: Vec<String> = Vec::new();
        let root = build_node(&self.id, decrypted, adjacency, &mut path, depth);
        assert(ids_view(Seq::<String>::empty()) =~= Seq::<Seq<char>>::empty());
        root.replies
    }
}

/// Expanding the thread below `id`, reached by way of `path`, `depth` levels
/// down leaves no reply unshown: at the last level no visible reply remains.
pub open spec fn expands_fully(adjacency: CommentsAdjacencyMap, id: Seq<char>, path: Seq<Seq<char>>, depth: nat) -> bool
    decreases depth,
{
    let kids = visible_children(adjacency.children(id), path.push(id));
    if depth == 0 {
        kids.len() == 0
    } else {
        forall|i: int| 0 <= i < kids.len() ==> expands_fully(adjacency, #[trigger] kids[i], path.push(id), (depth - 1) as nat)
    }
}

proof fn lemma_visible_children(kids: Seq<Seq<char>>, path: Seq<Seq<char>>)
    ensures
        forall|i: int| 0 <= i < visible_children(kids, path).len() ==> kids.contains(#[trigger] visible_children(kids, path)[i])
            && !path.contains(visible_children(kids, path)[i]),
    decreases kids.len(),
{
    if kids.len() > 0 {
        let rest = kids.drop_last();
        lemma_visible_children(rest, path);
        assert forall|i: int| 0 <= i < visible_children(kids, path).len() implies kids.contains(#[trigger] visible_children(kids, path)[i])
            && !path.contains(visible_children(kids, path)[i]) by {
            let x = visible_children(kids, path)[i];
            if i < visible_children(rest, path).len() {
                assert(x == visible_children(rest, path)[i]);
                let k = choose|k: int| 0 <= k < rest.len() && rest[k] == x;
                assert(kids[k] == x);
            } else {
                assert(kids[kids.len() - 1] == x);
            }
        }
    }
}

/// Distinct ids, all taken from `ids`, are no more than `ids` holds.
proof fn lemma_distinct_within(s: Seq<Seq<char>>, ids: Seq<Seq<char>>)
    requires
        s.no_duplicates(),
        forall|j: int| 0 <= j < s.len() ==> ids.contains(#[trigger] s[j]),
    ensures
        s.len() <= ids.len(),
{
    broadcast use vstd::seq_lib::seq_to_set_is_finite;
    s.unique_seq_to_set();
    ids.lemma_cardinality_of_set();
    assert(s.to_set().subset_of(ids.to_set()));
    vstd::set_lib::lemma_len_subset(s.to_set(), ids.to_set());
}

proof fn lemma_expands_fully_below(adjacency: CommentsAdjacencyMap, id: Seq<char>, path: Seq<Seq<char>>, depth: nat)
    requires
        path.push(id).no_duplicates(),
        forall|j: int| 0 <= j < path.len() ==> adjacency.children(#[trigger] path[j]).len() > 0,
        path.len() + depth >= adjacency.spec_parent_count(),
    ensures
        expands_fully(adjacency, id, path, depth),
    decreases depth,
{
    let below = path.push(id);
    let kids = visible_children(adjacency.children(id), below);
    lemma_visible_children(adjacency.children(id), below);
    if kids.len() > 0 {
        let k0 = kids[0];
        assert(adjacency.children(id).contains(k0));
        assert(adjacency.children(id).len() > 0);
        if depth == 0 {
            adjacency.lemma_parent_keys(id);
            assert forall|j: int| 0 <= j < below.len() implies adjacency.parent_keys().contains(#[trigger] below[j]) by {
                adjacency.lemma_parent_keys(below[j]);
                if j < path.len() {
                    assert(below[j] == path[j]);
                }
            }
            lemma_distinct_within(below, adjacency.parent_keys());
            assert(false);
        } else {
            assert forall|i: int| 0 <= i < kids.len() implies expands_fully(adjacency, #[trigger] kids[i], below, (depth - 1) as nat) by {
                assert(!below.contains(kids[i]));
                assert forall|a: int, b: int| 0 <= a < below.push(kids[i]).len() && 0 <= b < below.push(kids[i]).len() && a != b
                    implies below.push(kids[i])[a] != below.push(kids[i])[b] by {
                    if a < below.len() && b < below.len() {
                        assert(below.push(kids[i])[a] == below[a]);
                        assert(below.push(kids[i])[b] == below[b]);
                    } else if a == below.len() {
                        assert(below.push(kids[i])[b] == below[b]);
                    } else {
                        assert(below.push(kids[i])[a] == below[a]);
                    }
                }
                assert forall|j: int| 0 <= j < below.len() implies adjacency.children(#[trigger] below[j]).len() > 0 by {
                    if j < path.len() {
                        assert(below[j] == path[j]);
                    }
                }
                lemma_expands_fully_below(adjacency, kids[i], below, (depth - 1) as nat);
            }
        }
    }
}

/// Expanding a thread as many levels deep as the map has parents cuts nothing,
/// whatever the map: a chain of replies never revisits an id, and every id on
/// it but the last has replies, so it holds no more parents than the map.
pub proof fn lemma_threads_expand_fully(adjacency: CommentsAdjacencyMap, root: Seq<char>)
    ensures
        expands_fully(adjacency, root, Seq::empty(), adjacency.spec_parent_count()),
{
    assert(Seq::<Seq<char>>::empty().push(root).no_duplicates());
    lemma_expands_fully_below(adjacency, root, Seq::empty(), adjacency.spec_parent_count());
}

/// A nickname as JSON: the string, or `null`.
pub open spec fn nickname_json(n: Option<String>) -> Seq<char> {
    match n {
        Some(s) => json_string_of(s@),
        None => "null"@,
    }
}

/// A thread node as a JSON object with the keys `comment`, `id`, `nickname` and
/// `replies`, its replies rendered `depth` levels down.
pub open spec fn node_json(n: CommentNode, depth: nat) -> Seq<char>
    decreases depth, 0nat,
{
    "{\"comment\":"@ + json_string_of(n.comment@) + ",\"id\":"@ + json_string_of(n.id@) + ",\"nickname\":"@
        + nickname_json(n.nickname) + ",\"replies\":"@ + (if depth == 0 {
        "[]"@
    } else {
        list_json(n.replies@, (depth - 1) as nat)
    }) + "}"@
}

/// The nodes as JSON objects separated by commas.
pub open spec fn items_json(ns: Seq<CommentNode>, depth: nat) -> Seq<char>
    decreases depth, ns.len() + 1,
{
    if ns.len() == 0 {
        Seq::empty()
    } else if ns.len() == 1 {
        node_json(ns[0], depth)
    } else {
        items_json(ns.drop_last(), depth) + ","@ + node_json(ns.last(), depth)
    }
}

/// The nodes as a JSON array.
pub open spec fn list_json(ns: Seq<CommentNode>, depth: nat) -> Seq<char>
    decreases depth, ns.len() + 2,
{
    "["@ + items_json(ns, depth) + "]"@
}

fn push_nickname_json(out: &mut String, n: &Option<String>)
    ensures
        final(out)@ == old(out)@ + nickname_json(*n),
{
    match n {
        Some(s) => out.append(json_string(s.as_str()).as_str()),
        None => out.append("null"),
    }
}

fn push_node_json(out: &mut String, n: &CommentNode, depth: usize)
    ensures
        final(out)@ == old(out)@ + node_json(*n, depth as nat),
    decreases depth, 0usize,
{
    let ghost start = out@;
    out.append("{\"comment\":");
    out.append(json_string(n.comment.as_str()).as_str());
    out.append(",\"id\":");
    out.append(json_string(n.id.as_str()).as_str());
    out.append(",\"nickname\":");
    push_nickname_json(out, &n.nickname);
    out.append(",\"replies\":");
    let ghost before_replies = out@;
    if depth == 0 {
        out.append("[]");
    } else {
        push_list_json(out, &n.replies, depth - 1);
    }
    let ghost replies = out@.subrange(before_replies.len() as int, out@.len() as int);
    assert(out@ =~= before_replies + replies);
    out.append("}");
    assert(out@ =~= start + node_json(*n, depth as nat));
}

fn push_list_json(out: &mut String, ns: &Vec<CommentNode>, depth: usize)
    ensures
        final(out)@ == old(out)@ + list_json(ns@, depth as nat),
    decreases depth, 1usize,
{
    let ghost start = out@;
    out.append("[");
    let mut i: usize = 0;
    while i < ns.len()
        invariant
            i <= ns@.len(),
            out@ == start + "["@ + items_json(ns@.take(i as int), depth as nat),
        decreases ns.len() - i,
    {
        let ghost prefix = out@;
        assert(ns@.take(i + 1).drop_last() =~= ns@.take(i as int));
        if i > 0 {
            out.append(",");
        }
        push_node_json(out, &ns[i], depth);
        proof {
            if i == 0 {
                assert(items_json(ns@.take(1), depth as nat) == node_json(ns@[0], depth as nat));
                assert(out@ =~= start + "["@ + items_json(ns@.take(i + 1), depth as nat));
            } else {
                assert(out@ =~= start + "["@ + items_json(ns@.take(i + 1), depth as nat));
            }
        }
        i = i + 1;
    }
    assert(ns@.take(ns@.len() as int) =~= ns@);
    out.append("]");
    assert(out@ =~= start + list_json(ns@, depth as nat));
}

impl Paste {
    /// The comment threads of the paste as a JSON array of objects with the
    /// keys `comment`, `id`, `nickname` and `replies`, nested as `comments_forest`
    /// materializes them.
    pub fn comments_formatted_json_trees(
        &self,
        decrypted: &DecryptedCommentsMap,
        adjacency: &CommentsAdjacencyMap,
    ) -> (r: PbResult<String>)
        ensures
            r matches Ok(text) && exists|forest: Seq<CommentNode>|
                are_replies(forest, self.id@, *decrypted, *adjacency, Seq::empty(), adjacency.spec_parent_count())
                && #[trigger] list_json(forest, adjacency.spec_parent_count()) == text@,
    {
        let forest = self.comments_forest(decrypted, adjacency);
        let depth = adjacency.parent_count();
        let mut out = String::new();
        push_list_json(&mut out, &forest, depth);
        assert(out@ =~= list_json(forest@, adjacency.spec_parent_count()));
        Ok(out)
    }
}

} // verus!
