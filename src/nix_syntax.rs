//! The syntax tree of a Nix text, as plain values.
//!
//! rnix parses the text; its tree is handed over as the walk in document
//! order, and rebuilt here as an arena whose node indices follow that order.
use crate::text::{
    chars_of, join, join_chars, lemma_texts_push, same_chars, strip, strip_vec, sub_vec, texts,
    trim, trim_vec,
};
use rnix::{NodeOrToken, WalkEvent};
use vstd::prelude::*;
use vstd::string::*;

verus! {

/// One step of a walk over a syntax tree: a node or a token is entered, or left.
pub enum SyntaxEvent {
    /// A node starts; the name of its kind, as rnix spells it.
    Open(String),
    /// A node ends.
    Close,
    /// A token starts; its text.
    Token(String),
    /// A token ends.
    TokenClose,
}

pub ghost enum SyntaxEventV {
    Open(Seq<char>),
    Close,
    Token(Seq<char>),
    TokenClose,
}

impl View for SyntaxEvent {
    type V = SyntaxEventV;

    open spec fn view(&self) -> SyntaxEventV {
        match self {
            SyntaxEvent::Open(k) => SyntaxEventV::Open(k@),
            SyntaxEvent::Close => SyntaxEventV::Close,
            SyntaxEvent::Token(t) => SyntaxEventV::Token(t@),
            SyntaxEvent::TokenClose => SyntaxEventV::TokenClose,
        }
    }
}

pub open spec fn events_view(v: Seq<SyntaxEvent>) -> Seq<SyntaxEventV> {
    v.map_values(|e: SyntaxEvent| e@)
}

/// The walk, in document order, over the tree that rnix parses from `text`.
pub uninterp spec fn nix_walk(text: Seq<char>) -> Seq<SyntaxEventV>;

/// Relies on `rnix::Root::parse` and rowan's `preorder_with_tokens`: the walk
/// over the parsed tree, which depends on the text alone.
#[verifier::external_body]
fn parse_walk(text: &str) -> (r: Vec<SyntaxEvent>)
    ensures
        events_view(r@) == nix_walk(text@),
{
    rnix::Root::parse(text).syntax().preorder_with_tokens().map(|ev| match ev {
        WalkEvent::Enter(NodeOrToken::Node(n)) => SyntaxEvent::Open(format!("{:?}", n.kind())),
        WalkEvent::Leave(NodeOrToken::Node(_)) => SyntaxEvent::Close,
        WalkEvent::Enter(NodeOrToken::Token(t)) => SyntaxEvent::Token(t.text().to_string()),
        WalkEvent::Leave(NodeOrToken::Token(_)) => SyntaxEvent::TokenClose,
    }).collect()
}

/// The kinds of node that the share readers look at.
#[derive(PartialEq, Eq, Structural, Clone, Copy)]
pub enum NodeKind {
    AttrpathValue,
    Attrpath,
    Ident,
    Str,
    AttrSet,
    List,
    Other,
}

pub open spec fn kind_named(k: Seq<char>) -> NodeKind {
    if k == "NODE_ATTRPATH_VALUE"@ {
        NodeKind::AttrpathValue
    } else if k == "NODE_ATTRPATH"@ {
        NodeKind::Attrpath
    } else if k == "NODE_IDENT"@ {
        NodeKind::Ident
    } else if k == "NODE_STRING"@ {
        NodeKind::Str
    } else if k == "NODE_ATTR_SET"@ {
        NodeKind::AttrSet
    } else if k == "NODE_LIST"@ {
        NodeKind::List
    } else {
        NodeKind::Other
    }
}

fn kind_named_exec(k: &String) -> (r: NodeKind)
    ensures
        r == kind_named(k@),
{
    let c = chars_of(k.as_str());
    if same_chars(&c, &chars_of("NODE_ATTRPATH_VALUE")) {
        NodeKind::AttrpathValue
    } else if same_chars(&c, &chars_of("NODE_ATTRPATH")) {
        NodeKind::Attrpath
    } else if same_chars(&c, &chars_of("NODE_IDENT")) {
        NodeKind::Ident
    } else if same_chars(&c, &chars_of("NODE_STRING")) {
        NodeKind::Str
    } else if same_chars(&c, &chars_of("NODE_ATTR_SET")) {
        NodeKind::AttrSet
    } else if same_chars(&c, &chars_of("NODE_LIST")) {
        NodeKind::List
    } else {
        NodeKind::Other
    }
}

/// A syntax tree as an arena. Node `i` has kind `kinds[i]`, parent
/// `parents[i]`, and text `text[starts[i]..ends[i]]`; nodes are numbered in
/// document order, so a node's children follow it, in order.
pub ghost struct Tree {
    pub kinds: Seq<NodeKind>,
    pub parents: Seq<Option<int>>,
    pub starts: Seq<int>,
    pub ends: Seq<int>,
    /// The tokens' text, one after the other.
    pub text: Seq<char>,
    /// The nodes entered and not yet left.
    pub open: Seq<int>,
}

pub open spec fn empty_tree() -> Tree {
    Tree {
        kinds: Seq::empty(),
        parents: Seq::empty(),
        starts: Seq::empty(),
        ends: Seq::empty(),
        text: Seq::empty(),
        open: Seq::empty(),
    }
}

/// The tree after one more step of the walk.
pub open spec fn tree_step(t: Tree, e: SyntaxEventV) -> Tree {
    match e {
        SyntaxEventV::Open(k) => Tree {
            kinds: t.kinds.push(kind_named(k)),
            parents: t.parents.push(
                if t.open.len() > 0 {
                    Some(t.open.last())
                } else {
                    None
                },
            ),
            starts: t.starts.push(t.text.len() as int),
            ends: t.ends.push(t.text.len() as int),
            open: t.open.push(t.kinds.len() as int),
            ..t
        },
        SyntaxEventV::Close => if t.open.len() > 0 && 0 <= t.open.last() < t.ends.len() {
            Tree {
                ends: t.ends.update(t.open.last(), t.text.len() as int),
                open: t.open.drop_last(),
                ..t
            }
        } else {
            t
        },
        SyntaxEventV::Token(s) => Tree { text: t.text + s, ..t },
        SyntaxEventV::TokenClose => t,
    }
}

/// The tree that a walk describes.
pub open spec fn tree_of(w: Seq<SyntaxEventV>) -> Tree
    decreases w.len(),
{
    if w.len() == 0 {
        empty_tree()
    } else {
        tree_step(tree_of(w.drop_last()), w.last())
    }
}

/// The tree that rnix parses from `text`.
pub open spec fn nix_tree(text: Seq<char>) -> Tree {
    tree_of(nix_walk(text))
}

/// The syntax tree of a Nix text.
pub struct SyntaxTree {
    pub kinds: Vec<NodeKind>,
    pub parents: Vec<Option<usize>>,
    pub starts: Vec<usize>,
    pub ends: Vec<usize>,
    pub text: Vec<char>,
    pub open: Vec<usize>,
}

pub open spec fn opt_index(o: Option<usize>) -> Option<int> {
    match o {
        Some(i) => Some(i as int),
        None => None,
    }
}

impl View for SyntaxTree {
    type V = Tree;

    closed spec fn view(&self) -> Tree {
        Tree {
            kinds: self.kinds@,
            parents: self.parents@.map_values(|p: Option<usize>| opt_index(p)),
            starts: self.starts@.map_values(|i: usize| i as int),
            ends: self.ends@.map_values(|i: usize| i as int),
            text: self.text@,
            open: self.open@.map_values(|i: usize| i as int),
        }
    }
}

impl SyntaxTree {
    /// The arena is well formed: its columns have one entry per node, and
    /// every text position lies in the text.
    pub closed spec fn wf(&self) -> bool {
        &&& self.parents@.len() == self.kinds@.len()
        &&& self.starts@.len() == self.kinds@.len()
        &&& self.ends@.len() == self.kinds@.len()
        &&& forall|i: int| 0 <= i < self.kinds@.len() ==> self.starts@[i] <= self.text@.len()
        &&& forall|i: int| 0 <= i < self.kinds@.len() ==> self.ends@[i] <= self.text@.len()
        &&& forall|i: int| 0 <= i < self.open@.len() ==> self.open@[i] < self.kinds@.len()
    }

    pub proof fn lemma_wf(&self)
        requires
            self.wf(),
        ensures
            self.parents@.len() == self.kinds@.len(),
            self.starts@.len() == self.kinds@.len(),
            self.ends@.len() == self.kinds@.len(),
            self@.kinds.len() == self.kinds@.len(),
            self@.parents.len() == self.kinds@.len(),
            self@.starts.len() == self.kinds@.len(),
            self@.ends.len() == self.kinds@.len(),
            self@.text == self.text@,
            forall|i: int| 0 <= i < self.kinds@.len() ==> self@.starts[i] <= self.text@.len(),
            forall|i: int| 0 <= i < self.kinds@.len() ==> self@.ends[i] <= self.text@.len(),
            forall|i: int|
                0 <= i < self.kinds@.len() ==> self@.starts[i] == self.starts@[i] as int
                    && self@.ends[i] == self.ends@[i] as int && self@.kinds[i]
                    == self.kinds@[i] && self@.parents[i] == opt_index(self.parents@[i]),
    {
    }

    fn step(&mut self, e: &SyntaxEvent)
        requires
            old(self).wf(),
        ensures
            final(self).wf(),
            final(self)@ == tree_step(old(self)@, e@),
    {
        match e {
            SyntaxEvent::Open(k) => {
                let n = self.kinds.len();
                let parent = if self.open.len() > 0 {
                    Some(self.open[self.open.len() - 1])
                } else {
                    None
                };
                self.kinds.push(kind_named_exec(k));
                self.parents.push(parent);
                self.starts.push(self.text.len());
                self.ends.push(self.text.len());
                self.open.push(n);
                proof {
                    let t = old(self)@;
                    assert(self@.kinds =~= t.kinds.push(kind_named(k@)));
                    assert(self@.parents =~= t.parents.push(
                        if t.open.len() > 0 {
                            Some(t.open.last())
                        } else {
                            None
                        },
                    ));
                    assert(self@.starts =~= t.starts.push(t.text.len() as int));
                    assert(self@.ends =~= t.ends.push(t.text.len() as int));
                    assert(self@.open =~= t.open.push(t.kinds.len() as int));
                }
            },
            SyntaxEvent::Close => {
                if self.open.len() > 0 {
                    let top = self.open[self.open.len() - 1];
                    let end = self.text.len();
                    self.ends.set(top, end);
                    self.open.pop();
                    proof {
                        let t = old(self)@;
                        assert(self@.ends =~= t.ends.update(t.open.last(), t.text.len() as int));
                        assert(self@.open =~= t.open.drop_last());
                    }
                }
            },
            SyntaxEvent::Token(s) => {
                let cs = chars_of(s.as_str());
                let mut i: usize = 0;
                let ghost t0 = self.text@;
                while i < cs.len()
                    invariant
                        self.wf(),
                        i <= cs@.len(),
                        self.text@ == t0 + cs@.subrange(0, i as int),
                        self.kinds@ == old(self).kinds@,
                        self.parents@ == old(self).parents@,
                        self.starts@ == old(self).starts@,
                        self.ends@ == old(self).ends@,
                        self.open@ == old(self).open@,
                        t0 == old(self).text@,
                    decreases cs@.len() - i,
                {
                    self.text.push(cs[i]);
                    i = i + 1;
                    assert(self.text@ =~= t0 + cs@.subrange(0, i as int));
                }
                assert(cs@.subrange(0, cs@.len() as int) =~= cs@);
                assert(self@.text == old(self)@.text + s@);
                assert(self@ == tree_step(old(self)@, e@));
            },
            SyntaxEvent::TokenClose => {},
        }
    }

    /// The tree that a walk describes: one node for each node entered, in
    /// the order entered, with the tokens' text in between.
    pub fn from_walk(walk: &Vec<SyntaxEvent>) -> (r: SyntaxTree)
        ensures
            r.wf(),
            r@ == tree_of(events_view(walk@)),
    {
        let mut t = SyntaxTree {
            kinds: Vec::new(),
            parents: Vec::new(),
            starts: Vec::new(),
            ends: Vec::new(),
            text: Vec::new(),
            open: Vec::new(),
        };
        assert(t@ == empty_tree()) by {
            assert(t@.kinds =~= Seq::<NodeKind>::empty());
            assert(t@.parents =~= Seq::<Option<int>>::empty());
            assert(t@.starts =~= Seq::<int>::empty());
            assert(t@.ends =~= Seq::<int>::empty());
            assert(t@.text =~= Seq::<char>::empty());
            assert(t@.open =~= Seq::<int>::empty());
        }
        let mut i: usize = 0;
        while i < walk.len()
            invariant
                t.wf(),
                i <= walk@.len(),
                t@ == tree_of(events_view(walk@).subrange(0, i as int)),
            decreases walk@.len() - i,
        {
            let ghost w = events_view(walk@);
            t.step(&walk[i]);
            assert(w.subrange(0, i + 1).drop_last() =~= w.subrange(0, i as int));
            i = i + 1;
        }
        assert(events_view(walk@).subrange(0, i as int) =~= events_view(walk@));
        t
    }

    /// The syntax tree that rnix parses from `content`.
    pub fn parse(content: &str) -> (r: SyntaxTree)
        ensures
            r.wf(),
            r@ == nix_tree(content@),
    {
        let walk = parse_walk(content);
        SyntaxTree::from_walk(&walk)
    }
}

// ---------------------------------------------------------------------------
// Queries on the tree
/// Node `j` is a child of node `p`.
pub open spec fn is_child(t: Tree, p: int, j: int) -> bool {
    0 <= j < t.kinds.len() && j < t.parents.len() && t.parents[j] == Some(p)
}

/// The text of node `i`.
pub open spec fn node_text(t: Tree, i: int) -> Seq<char> {
    if 0 <= i < t.starts.len() && i < t.ends.len() && 0 <= t.starts[i] <= t.ends[i]
        <= t.text.len() {
        t.text.subrange(t.starts[i], t.ends[i])
    } else {
        Seq::empty()
    }
}

/// The first child of `p` of kind `k`, from node `j` on.
pub open spec fn first_child(t: Tree, p: int, k: NodeKind, j: int) -> Option<int>
    decreases t.kinds.len() - j,
{
    if j < 0 || j >= t.kinds.len() {
        None
    } else if is_child(t, p, j) && t.kinds[j] == k {
        Some(j)
    } else {
        first_child(t, p, k, j + 1)
    }
}

/// A string node's text without its quotes.
pub open spec fn unquoted(t: Tree, j: int) -> Seq<char> {
    strip(node_text(t, j), '"')
}

/// The parts of the attribute path `a`: identifiers, and strings without their
/// quotes, from node `j` on, after `acc`.
pub open spec fn path_parts(t: Tree, a: int, j: int, acc: Seq<Seq<char>>) -> Seq<Seq<char>>
    decreases t.kinds.len() - j,
{
    if j < 0 || j >= t.kinds.len() {
        acc
    } else if is_child(t, a, j) && t.kinds[j] == NodeKind::Ident {
        path_parts(t, a, j + 1, acc.push(node_text(t, j)))
    } else if is_child(t, a, j) && t.kinds[j] == NodeKind::Str {
        path_parts(t, a, j + 1, acc.push(unquoted(t, j)))
    } else {
        path_parts(t, a, j + 1, acc)
    }
}

/// The name of the attribute that the entry `e` defines, its path's parts
/// joined by dots.
pub open spec fn attr_name(t: Tree, e: int) -> Option<Seq<char>> {
    match first_child(t, e, NodeKind::Attrpath, 0) {
        Some(a) => Some(join(path_parts(t, a, 0, Seq::empty()), "."@)),
        None => None,
    }
}

/// The first child of `e` that is a string or an identifier, from node `j` on.
pub open spec fn first_scalar(t: Tree, e: int, j: int) -> Option<int>
    decreases t.kinds.len() - j,
{
    if j < 0 || j >= t.kinds.len() {
        None
    } else if is_child(t, e, j) && (t.kinds[j] == NodeKind::Str || t.kinds[j]
        == NodeKind::Ident) {
        Some(j)
    } else {
        first_scalar(t, e, j + 1)
    }
}

/// A string or identifier node's value: a string trimmed and without quotes,
/// an identifier as it stands.
pub open spec fn scalar_value(t: Tree, j: int) -> Seq<char> {
    if t.kinds[j] == NodeKind::Str {
        strip(trim(node_text(t, j)), '"')
    } else {
        node_text(t, j)
    }
}

/// The value of the entry `e` where it is a string or an identifier.
pub open spec fn attr_value(t: Tree, e: int) -> Option<Seq<char>> {
    match first_scalar(t, e, 0) {
        Some(j) => Some(scalar_value(t, j)),
        None => None,
    }
}

/// The strings and identifiers of the list `l`, from node `j` on, after `acc`.
pub open spec fn list_items(t: Tree, l: int, j: int, acc: Seq<Seq<char>>) -> Seq<Seq<char>>
    decreases t.kinds.len() - j,
{
    if j < 0 || j >= t.kinds.len() {
        acc
    } else if is_child(t, l, j) && (t.kinds[j] == NodeKind::Str || t.kinds[j]
        == NodeKind::Ident) {
        list_items(t, l, j + 1, acc.push(scalar_value(t, j)))
    } else {
        list_items(t, l, j + 1, acc)
    }
}

/// The items of the entry `e` where its value is a list.
pub open spec fn attr_list(t: Tree, e: int) -> Option<Seq<Seq<char>>> {
    match first_child(t, e, NodeKind::List, 0) {
        Some(l) => Some(list_items(t, l, 0, Seq::empty())),
        None => None,
    }
}

// ---------------------------------------------------------------------------
// The same queries, computed
pub fn is_child_exec(t: &SyntaxTree, p: usize, j: usize) -> (r: bool)
    requires
        t.wf(),
        j < t.kinds@.len(),
    ensures
        r == is_child(t@, p as int, j as int),
{
    proof {
        t.lemma_wf();
    }
    match t.parents[j] {
        Some(q) => q == p,
        None => false,
    }
}

pub fn node_text_exec(t: &SyntaxTree, i: usize) -> (r: Vec<char>)
    requires
        t.wf(),
        i < t.kinds@.len(),
    ensures
        r@ == node_text(t@, i as int),
{
    proof {
        t.lemma_wf();
    }
    let s = t.starts[i];
    let e = t.ends[i];
    if s <= e && e <= t.text.len() {
        sub_vec(&t.text, s, e)
    } else {
        let v: Vec<char> = Vec::new();
        assert(v@ =~= Seq::<char>::empty());
        v
    }
}

pub fn first_child_exec(t: &SyntaxTree, p: usize, k: NodeKind) -> (r: Option<usize>)
    requires
        t.wf(),
    ensures
        match r {
            Some(j) => first_child(t@, p as int, k, 0) == Some(j as int) && j < t.kinds@.len(),
            None => first_child(t@, p as int, k, 0) is None,
        },
{
    proof {
        t.lemma_wf();
    }
    let n = t.kinds.len();
    let mut j: usize = 0;
    while j < n
        invariant
            t.wf(),
            n == t@.kinds.len(),
            n == t.kinds@.len(),
            j <= n,
            first_child(t@, p as int, k, 0) == first_child(t@, p as int, k, j as int),
        decreases n - j,
    {
        proof {
            t.lemma_wf();
        }
        if is_child_exec(t, p, j) && t.kinds[j] == k {
            return Some(j);
        }
        j = j + 1;
    }
    None
}

pub fn path_parts_exec(t: &SyntaxTree, a: usize) -> (r: Vec<Vec<char>>)
    requires
        t.wf(),
    ensures
        texts(r@) == path_parts(t@, a as int, 0, Seq::empty()),
{
    proof {
        t.lemma_wf();
    }
    let n = t.kinds.len();
    let mut acc: Vec<Vec<char>> = Vec::new();
    let mut j: usize = 0;
    assert(texts(acc@) =~= Seq::<Seq<char>>::empty());
    while j < n
        invariant
            t.wf(),
            n == t@.kinds.len(),
            n == t.kinds@.len(),
            j <= n,
            path_parts(t@, a as int, 0, Seq::empty()) == path_parts(
                t@,
                a as int,
                j as int,
                texts(acc@),
            ),
        decreases n - j,
    {
        proof {
            t.lemma_wf();
        }
        if is_child_exec(t, a, j) && t.kinds[j] == NodeKind::Ident {
            let x = node_text_exec(t, j);
            proof {
                lemma_texts_push(acc@, x);
            }
            acc.push(x);
        } else if is_child_exec(t, a, j) && t.kinds[j] == NodeKind::Str {
            let x = strip_vec(&node_text_exec(t, j), '"');
            proof {
                lemma_texts_push(acc@, x);
            }
            acc.push(x);
        }
        j = j + 1;
    }
    acc
}

pub fn attr_name_exec(t: &SyntaxTree, e: usize) -> (r: Option<Vec<char>>)
    requires
        t.wf(),
    ensures
        match r {
            Some(v) => attr_name(t@, e as int) == Some(v@),
            None => attr_name(t@, e as int) is None,
        },
{
    match first_child_exec(t, e, NodeKind::Attrpath) {
        Some(a) => {
            let parts = path_parts_exec(t, a);
            Some(join_chars(&parts, &chars_of(".")))
        },
        None => None,
    }
}

pub fn first_scalar_exec(t: &SyntaxTree, e: usize) -> (r: Option<usize>)
    requires
        t.wf(),
    ensures
        match r {
            Some(j) => first_scalar(t@, e as int, 0) == Some(j as int) && j < t.kinds@.len(),
            None => first_scalar(t@, e as int, 0) is None,
        },
{
    proof {
        t.lemma_wf();
    }
    let n = t.kinds.len();
    let mut j: usize = 0;
    while j < n
        invariant
            t.wf(),
            n == t@.kinds.len(),
            n == t.kinds@.len(),
            j <= n,
            first_scalar(t@, e as int, 0) == first_scalar(t@, e as int, j as int),
        decreases n - j,
    {
        proof {
            t.lemma_wf();
        }
        if is_child_exec(t, e, j) && (t.kinds[j] == NodeKind::Str || t.kinds[j]
            == NodeKind::Ident) {
            return Some(j);
        }
        j = j + 1;
    }
    None
}

pub fn scalar_value_exec(t: &SyntaxTree, j: usize) -> (r: Vec<char>)
    requires
        t.wf(),
        j < t.kinds@.len(),
    ensures
        r@ == scalar_value(t@, j as int),
{
    proof {
        t.lemma_wf();
    }
    if t.kinds[j] == NodeKind::Str {
        strip_vec(&trim_vec(&node_text_exec(t, j)), '"')
    } else {
        node_text_exec(t, j)
    }
}

pub fn attr_value_exec(t: &SyntaxTree, e: usize) -> (r: Vec<char>)
    requires
        t.wf(),
    ensures
        r@ == value_or_empty(attr_value(t@, e as int)),
{
    match first_scalar_exec(t, e) {
        Some(j) => scalar_value_exec(t, j),
        None => {
            let v: Vec<char> = Vec::new();
            assert(v@ =~= Seq::<char>::empty());
            v
        },
    }
}

pub fn attr_list_exec(t: &SyntaxTree, e: usize) -> (r: Vec<Vec<char>>)
    requires
        t.wf(),
    ensures
        texts(r@) == list_or_empty(attr_list(t@, e as int)),
{
    let mut acc: Vec<Vec<char>> = Vec::new();
    assert(texts(acc@) =~= Seq::<Seq<char>>::empty());
    match first_child_exec(t, e, NodeKind::List) {
        Some(l) => {
            proof {
                t.lemma_wf();
            }
            let n = t.kinds.len();
            let mut j: usize = 0;
            while j < n
                invariant
                    t.wf(),
                    n == t@.kinds.len(),
                    n == t.kinds@.len(),
                    j <= n,
                    list_items(t@, l as int, 0, Seq::empty()) == list_items(
                        t@,
                        l as int,
                        j as int,
                        texts(acc@),
                    ),
                decreases n - j,
            {
                proof {
                    t.lemma_wf();
                }
                if is_child_exec(t, l, j) && (t.kinds[j] == NodeKind::Str || t.kinds[j]
                    == NodeKind::Ident) {
                    let x = scalar_value_exec(t, j);
                    proof {
                        lemma_texts_push(acc@, x);
                    }
                    acc.push(x);
                }
                j = j + 1;
            }
            acc
        },
        None => acc,
    }
}

pub open spec fn value_or_empty(v: Option<Seq<char>>) -> Seq<char> {
    match v {
        Some(x) => x,
        None => Seq::empty(),
    }
}

pub open spec fn list_or_empty(v: Option<Seq<Seq<char>>>) -> Seq<Seq<char>> {
    match v {
        Some(x) => x,
        None => Seq::empty(),
    }
}

// ---------------------------------------------------------------------------
// Attribute paths through nesting
/// The nearest entry (`key = value;` node) that encloses node `j`.
pub open spec fn enclosing_entry(t: Tree, j: int) -> Option<int>
    decreases j,
{
    if j < 0 || j >= t.parents.len() {
        None
    } else {
        match t.parents[j] {
            Some(p) => if 0 <= p < j {
                if p < t.kinds.len() && t.kinds[p] == NodeKind::AttrpathValue {
                    Some(p)
                } else {
                    enclosing_entry(t, p)
                }
            } else {
                None
            },
            None => None,
        }
    }
}

/// The parts of the attribute path that entry `e` itself names.
pub open spec fn own_parts(t: Tree, e: int) -> Seq<Seq<char>> {
    match first_child(t, e, NodeKind::Attrpath, 0) {
        Some(a) => path_parts(t, a, 0, Seq::empty()),
        None => Seq::empty(),
    }
}

/// The full attribute path of entry `e`: the paths of the entries that
/// enclose it, outermost first, then its own. `a.b = { c = ...; }`,
/// `a.b.c = ...` and `"a"."b"."c" = ...` all give `c` the path `a`, `b`, `c`.
pub open spec fn full_path(t: Tree, e: int) -> Seq<Seq<char>>
    decreases e,
{
    match enclosing_entry(t, e) {
        Some(a) => if 0 <= a < e {
            full_path(t, a) + own_parts(t, e)
        } else {
            own_parts(t, e)
        },
        None => own_parts(t, e),
    }
}

/// `p` ends with the parts `q`.
pub open spec fn ends_with_parts(p: Seq<Seq<char>>, q: Seq<Seq<char>>) -> bool {
    q.len() <= p.len() && p.subrange(p.len() - q.len(), p.len() as int) == q
}

pub fn enclosing_entry_exec(t: &SyntaxTree, j: usize) -> (r: Option<usize>)
    requires
        t.wf(),
        j < t.kinds@.len(),
    ensures
        match r {
            Some(a) => enclosing_entry(t@, j as int) == Some(a as int) && a < j,
            None => enclosing_entry(t@, j as int) is None,
        },
{
    proof {
        t.lemma_wf();
    }
    let mut cur: usize = j;
    loop
        invariant
            t.wf(),
            cur <= j,
            j < t.kinds@.len(),
            enclosing_entry(t@, j as int) == enclosing_entry(t@, cur as int),
        decreases cur,
    {
        proof {
            t.lemma_wf();
        }
        match t.parents[cur] {
            Some(p) => {
                if p < cur {
                    if t.kinds[p] == NodeKind::AttrpathValue {
                        return Some(p);
                    }
                    cur = p;
                } else {
                    return None;
                }
            },
            None => {
                return None;
            },
        }
    }
}

pub fn own_parts_exec(t: &SyntaxTree, e: usize) -> (r: Vec<Vec<char>>)
    requires
        t.wf(),
    ensures
        texts(r@) == own_parts(t@, e as int),
{
    match first_child_exec(t, e, NodeKind::Attrpath) {
        Some(a) => path_parts_exec(t, a),
        None => {
            let v: Vec<Vec<char>> = Vec::new();
            assert(texts(v@) =~= Seq::<Seq<char>>::empty());
            v
        },
    }
}

pub fn full_path_exec(t: &SyntaxTree, e: usize) -> (r: Vec<Vec<char>>)
    requires
        t.wf(),
        e < t.kinds@.len(),
    ensures
        texts(r@) == full_path(t@, e as int),
    decreases e,
{
    let own = own_parts_exec(t, e);
    match enclosing_entry_exec(t, e) {
        Some(a) => {
            let mut v = full_path_exec(t, a);
            let ghost start = texts(v@);
            let mut i: usize = 0;
            while i < own.len()
                invariant
                    i <= own@.len(),
                    texts(v@) == start + texts(own@).subrange(0, i as int),
                decreases own@.len() - i,
            {
                let x = sub_vec(&own[i], 0, own[i].len());
                assert(x@ =~= own@[i as int]@);
                proof {
                    lemma_texts_push(v@, x);
                }
                v.push(x);
                i = i + 1;
                assert(texts(v@) =~= start + texts(own@).subrange(0, i as int));
            }
            assert(texts(own@).subrange(0, i as int) =~= texts(own@));
            v
        },
        None => own,
    }
}

/// Whether `p` ends with the parts `q`.
pub fn ends_with_parts_exec(p: &Vec<Vec<char>>, q: &Vec<Vec<char>>) -> (r: bool)
    ensures
        r == ends_with_parts(texts(p@), texts(q@)),
{
    if q.len() > p.len() {
        return false;
    }
    let off = p.len() - q.len();
    let mut i: usize = 0;
    while i < q.len()
        invariant
            off + q@.len() == p@.len(),
            p@.len() == p.len(),
            i <= q@.len(),
            forall|k: int| 0 <= k < i ==> texts(p@)[off + k] == texts(q@)[k],
        decreases q@.len() - i,
    {
        assert(off + i < p@.len());
        if !same_chars(&p[off + i], &q[i]) {
            assert(texts(p@).subrange(off as int, p@.len() as int)[i as int] != texts(q@)[i as int]);
            return false;
        }
        i = i + 1;
    }
    assert(texts(p@).subrange(off as int, p@.len() as int) =~= texts(q@));
    true
}

/// Every node's span lies in the text, and every open node is a node.
pub open spec fn tree_spans_ok(t: Tree) -> bool {
    &&& t.parents.len() == t.kinds.len()
    &&& t.starts.len() == t.kinds.len()
    &&& t.ends.len() == t.kinds.len()
    &&& forall|i: int| 0 <= i < t.kinds.len() ==> 0 <= #[trigger] t.starts[i] <= t.ends[i] <= t.text.len()
    &&& forall|i: int| 0 <= i < t.open.len() ==> 0 <= #[trigger] t.open[i] < t.kinds.len()
}

/// In the tree of any walk, every node's span lies in the text.
pub proof fn lemma_tree_spans(w: Seq<SyntaxEventV>)
    ensures
        tree_spans_ok(tree_of(w)),
    decreases w.len(),
{
    if w.len() > 0 {
        lemma_tree_spans(w.drop_last());
        let t = tree_of(w.drop_last());
        let u = tree_of(w);
        assert(u == tree_step(t, w.last()));
        match w.last() {
            SyntaxEventV::Open(k) => {
                assert forall|i: int| 0 <= i < u.kinds.len() implies 0 <= #[trigger] u.starts[i] <= u.ends[i]
                    <= u.text.len() by {
                    if i < t.kinds.len() {
                        assert(u.starts[i] == t.starts[i] && u.ends[i] == t.ends[i]);
                    }
                }
                assert forall|i: int| 0 <= i < u.open.len() implies 0 <= #[trigger] u.open[i] < u.kinds.len() by {
                    if i < t.open.len() {
                        assert(u.open[i] == t.open[i]);
                    }
                }
            },
            SyntaxEventV::Close => {
                if t.open.len() > 0 && 0 <= t.open.last() < t.ends.len() {
                    assert forall|i: int| 0 <= i < u.kinds.len() implies 0 <= #[trigger] u.starts[i]
                        <= u.ends[i] <= u.text.len() by {
                        if i != t.open.last() {
                            assert(u.ends[i] == t.ends[i]);
                        }
                    }
                    assert forall|i: int| 0 <= i < u.open.len() implies 0 <= #[trigger] u.open[i]
                        < u.kinds.len() by {
                        assert(u.open[i] == t.open[i]);
                    }
                }
            },
            SyntaxEventV::Token(x) => {},
            SyntaxEventV::TokenClose => {},
        }
    }
}

} // verus!
