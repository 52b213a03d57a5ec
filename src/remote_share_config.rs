//! Remote shares: the `fileSystems` entries of a NixOS configuration whose
//! `fsType` is `cifs`, written as `fileSystems."<mount point>" = { ... };`,
//! with quoted keys, or inside a `fileSystems = { ... };` block.
//!
//! Entries are found in the syntax tree that rnix parses from the text; an
//! entry is rewritten or removed by splicing its own span of the text.
use crate::nix_syntax::{
    attr_list, attr_list_exec, attr_name, attr_name_exec, attr_value, attr_value_exec, first_child,
    first_child_exec, full_path, full_path_exec, is_child, is_child_exec, list_or_empty, nix_tree,
    value_or_empty, NodeKind, SyntaxTree, Tree,
};
use crate::share_config::result_view;
use crate::text::{
    chars_of, join, join_chars, lemma_rfind_char_bound, rfind_char, rfind_char_exec, same_chars,
    splice, splice_exec, starts_with, starts_with_exec, string_of, sub_vec, texts,
};
use vstd::prelude::*;
use vstd::string::*;

verus! {

/// One remote folder, mounted at `name`.
pub struct RemoteSambaShareConfig {
    pub name: String,
    pub remote_path: String,
    pub fs_type: String,
    pub option_credentials: String,
    pub force_user: String,
    pub force_group: String,
}

/// The value of a [`RemoteSambaShareConfig`].
pub struct RemoteRecord {
    pub name: Seq<char>,
    pub remote_path: Seq<char>,
    pub fs_type: Seq<char>,
    pub option_credentials: Seq<char>,
    pub force_user: Seq<char>,
    pub force_group: Seq<char>,
}

impl View for RemoteSambaShareConfig {
    type V = RemoteRecord;

    open spec fn view(&self) -> RemoteRecord {
        RemoteRecord {
            name: self.name@,
            remote_path: self.remote_path@,
            fs_type: self.fs_type@,
            option_credentials: self.option_credentials@,
            force_user: self.force_user@,
            force_group: self.force_group@,
        }
    }
}

pub open spec fn remotes_view(v: Seq<RemoteSambaShareConfig>) -> Seq<RemoteRecord> {
    v.map_values(|s: RemoteSambaShareConfig| s@)
}

// ---------------------------------------------------------------------------
// Entries
/// The mount point that entry `i` defines: the last part of its full path,
/// where the part before it is `fileSystems` and it is not empty. So
/// `fileSystems."/m" = ...`, `"fileSystems"."/m" = ...` and the `"/m"` entry
/// of `fileSystems = { "/m" = ...; }` all define `/m`.
pub open spec fn mount_point_of(t: Tree, i: int) -> Option<Seq<char>> {
    if 0 <= i < t.kinds.len() && t.kinds[i] == NodeKind::AttrpathValue {
        let fp = full_path(t, i);
        if fp.len() >= 2 && fp[fp.len() - 2] == "fileSystems"@ && fp.last().len() > 0 {
            Some(fp.last())
        } else {
            None
        }
    } else {
        None
    }
}

/// The `device`, `fsType` and `options` of a mount, as far as read.
pub struct MountFields {
    pub device: Seq<char>,
    pub fs_type: Seq<char>,
    pub options: Seq<Seq<char>>,
}

/// The fields after the entries of the attribute set `s` from node `j` on;
/// the last assignment of a field wins, and one whose value has another shape
/// makes it empty.
pub open spec fn mount_fields(t: Tree, s: int, j: int, f: MountFields) -> MountFields
    decreases t.kinds.len() - j,
{
    if j < 0 || j >= t.kinds.len() {
        f
    } else if is_child(t, s, j) && t.kinds[j] == NodeKind::AttrpathValue {
        let g = match attr_name(t, j) {
            Some(k) => if k == "device"@ {
                MountFields { device: value_or_empty(attr_value(t, j)), ..f }
            } else if k == "fsType"@ {
                MountFields { fs_type: value_or_empty(attr_value(t, j)), ..f }
            } else if k == "options"@ {
                MountFields { options: list_or_empty(attr_list(t, j)), ..f }
            } else {
                f
            },
            None => f,
        };
        mount_fields(t, s, j + 1, g)
    } else {
        mount_fields(t, s, j + 1, f)
    }
}

pub open spec fn no_fields() -> MountFields {
    MountFields { device: Seq::empty(), fs_type: Seq::empty(), options: Seq::empty() }
}

/// What follows `prefix` in the first option that starts with it, from
/// option `j` on.
pub open spec fn option_value(opts: Seq<Seq<char>>, prefix: Seq<char>, j: int) -> Option<
    Seq<char>,
>
    decreases opts.len() - j,
{
    if j < 0 || j >= opts.len() {
        None
    } else if starts_with(opts[j], prefix) {
        Some(opts[j].subrange(prefix.len() as int, opts[j].len() as int))
    } else {
        option_value(opts, prefix, j + 1)
    }
}

pub open spec fn option_or(opts: Seq<Seq<char>>, prefix: Seq<char>, absent: Seq<char>) -> Seq<
    char,
> {
    match option_value(opts, prefix, 0) {
        Some(v) => v,
        None => absent,
    }
}

/// The share that a mount at `mp` with fields `f` describes; `uid` defaults to
/// `1000` and `gid` to `100`.
pub open spec fn remote_of(mp: Seq<char>, f: MountFields) -> RemoteRecord {
    RemoteRecord {
        name: mp,
        remote_path: f.device,
        fs_type: f.fs_type,
        option_credentials: option_or(f.options, "credentials="@, Seq::empty()),
        force_user: option_or(f.options, "uid="@, "1000"@),
        force_group: option_or(f.options, "gid="@, "100"@),
    }
}

/// The `cifs` shares of the entry `i` at mount point `mp`: one for each of
/// its attribute-set values, from node `j` on.
pub open spec fn shares_of_sets(t: Tree, i: int, mp: Seq<char>, j: int) -> Seq<RemoteRecord>
    decreases t.kinds.len() - j,
{
    if j < 0 || j >= t.kinds.len() {
        Seq::empty()
    } else {
        let rest = shares_of_sets(t, i, mp, j + 1);
        if is_child(t, i, j) && t.kinds[j] == NodeKind::AttrSet {
            let f = mount_fields(t, j, 0, no_fields());
            if f.fs_type == "cifs"@ {
                seq![remote_of(mp, f)] + rest
            } else {
                rest
            }
        } else {
            rest
        }
    }
}

/// The `cifs` shares that node `i` defines.
pub open spec fn shares_of_node(t: Tree, i: int) -> Seq<RemoteRecord> {
    match mount_point_of(t, i) {
        Some(mp) => shares_of_sets(t, i, mp, 0),
        None => Seq::empty(),
    }
}

/// The `cifs` shares that the first `n` nodes define, in document order.
pub open spec fn shares_upto(t: Tree, n: int) -> Seq<RemoteRecord>
    decreases n,
{
    if n <= 0 {
        Seq::empty()
    } else {
        shares_upto(t, n - 1) + shares_of_node(t, n - 1)
    }
}

/// The remote shares that a configuration text defines, in document order.
pub open spec fn read_remotes(content: Seq<char>) -> Seq<RemoteRecord> {
    let t = nix_tree(content);
    shares_upto(t, t.kinds.len() as int)
}

fn mount_point_of_exec(t: &SyntaxTree, i: usize) -> (r: Option<Vec<char>>)
    requires
        t.wf(),
        i < t.kinds@.len(),
    ensures
        match r {
            Some(v) => mount_point_of(t@, i as int) == Some(v@),
            None => mount_point_of(t@, i as int) is None,
        },
{
    proof {
        t.lemma_wf();
    }
    if t.kinds[i] != NodeKind::AttrpathValue {
        return None;
    }
    let fp = full_path_exec(t, i);
    let n = fp.len();
    if n >= 2 && same_chars(&fp[n - 2], &chars_of("fileSystems")) && fp[n - 1].len() > 0 {
        let last = sub_vec(&fp[n - 1], 0, fp[n - 1].len());
        assert(last@ =~= texts(fp@).last());
        Some(last)
    } else {
        None
    }
}

struct Fields {
    device: Vec<char>,
    fs_type: Vec<char>,
    options: Vec<Vec<char>>,
}

impl View for Fields {
    type V = MountFields;

    closed spec fn view(&self) -> MountFields {
        MountFields { device: self.device@, fs_type: self.fs_type@, options: texts(self.options@) }
    }
}

fn mount_fields_exec(t: &SyntaxTree, s: usize) -> (r: Fields)
    requires
        t.wf(),
    ensures
        r@ == mount_fields(t@, s as int, 0, no_fields()),
{
    proof {
        t.lemma_wf();
    }
    let n = t.kinds.len();
    let mut f = Fields { device: Vec::new(), fs_type: Vec::new(), options: Vec::new() };
    assert(f@ == no_fields()) by {
        assert(f@.device =~= Seq::<char>::empty());
        assert(f@.fs_type =~= Seq::<char>::empty());
        assert(f@.options =~= Seq::<Seq<char>>::empty());
    }
    let device = chars_of("device");
    let fs_type = chars_of("fsType");
    let options = chars_of("options");
    let mut j: usize = 0;
    while j < n
        invariant
            t.wf(),
            n == t@.kinds.len(),
            n == t.kinds@.len(),
            j <= n,
            device@ == "device"@,
            fs_type@ == "fsType"@,
            options@ == "options"@,
            mount_fields(t@, s as int, 0, no_fields()) == mount_fields(
                t@,
                s as int,
                j as int,
                f@,
            ),
        decreases n - j,
    {
        proof {
            t.lemma_wf();
        }
        if is_child_exec(t, s, j) && t.kinds[j] == NodeKind::AttrpathValue {
            match attr_name_exec(t, j) {
                Some(k) => {
                    if same_chars(&k, &device) {
                        f.device = attr_value_exec(t, j);
                    } else if same_chars(&k, &fs_type) {
                        f.fs_type = attr_value_exec(t, j);
                    } else if same_chars(&k, &options) {
                        f.options = attr_list_exec(t, j);
                    }
                },
                None => {},
            }
        }
        j = j + 1;
    }
    f
}

fn option_or_exec(opts: &Vec<Vec<char>>, prefix: &str, absent: &str) -> (r: String)
    ensures
        r@ == option_or(texts(opts@), prefix@, absent@),
{
    let p = chars_of(prefix);
    let mut j: usize = 0;
    while j < opts.len()
        invariant
            j <= opts@.len(),
            p@ == prefix@,
            option_value(texts(opts@), prefix@, 0) == option_value(
                texts(opts@),
                prefix@,
                j as int,
            ),
        decreases opts@.len() - j,
    {
        if starts_with_exec(&opts[j], &p) {
            return string_of(&sub_vec(&opts[j], p.len(), opts[j].len()));
        }
        j = j + 1;
    }
    String::from_str(absent)
}

fn remote_of_exec(mp: &Vec<char>, f: &Fields) -> (r: RemoteSambaShareConfig)
    ensures
        r@ == remote_of(mp@, f@),
{
    proof {
        reveal_strlit("");
    }
    let r = RemoteSambaShareConfig {
        name: string_of(mp),
        remote_path: string_of(&f.device),
        fs_type: string_of(&f.fs_type),
        option_credentials: option_or_exec(&f.options, "credentials=", ""),
        force_user: option_or_exec(&f.options, "uid=", "1000"),
        force_group: option_or_exec(&f.options, "gid=", "100"),
    };
    assert(r@.option_credentials == remote_of(mp@, f@).option_credentials);
    assert(r@.force_user == remote_of(mp@, f@).force_user);
    r
}

/// Appends the `cifs` shares that node `i` defines to `out`.
fn push_shares_of_node(t: &SyntaxTree, i: usize, out: &mut Vec<RemoteSambaShareConfig>)
    requires
        t.wf(),
        i < t.kinds@.len(),
    ensures
        remotes_view(final(out)@) == remotes_view(old(out)@) + shares_of_node(t@, i as int),
{
    proof {
        t.lemma_wf();
    }
    match mount_point_of_exec(t, i) {
        Some(mp) => {
            let n = t.kinds.len();
            let cifs = chars_of("cifs");
            let mut j: usize = 0;
            assert(remotes_view(out@) =~= remotes_view(old(out)@) + Seq::<RemoteRecord>::empty());
            while j < n
                invariant
                    t.wf(),
                    n == t@.kinds.len(),
                    n == t.kinds@.len(),
                    j <= n,
                    cifs@ == "cifs"@,
                    remotes_view(old(out)@) + shares_of_sets(t@, i as int, mp@, 0) == remotes_view(
                        out@,
                    ) + shares_of_sets(t@, i as int, mp@, j as int),
                decreases n - j,
            {
                proof {
                    t.lemma_wf();
                }
                let ghost before = remotes_view(out@);
                if is_child_exec(t, i, j) && t.kinds[j] == NodeKind::AttrSet {
                    let f = mount_fields_exec(t, j);
                    if same_chars(&f.fs_type, &cifs) {
                        let r = remote_of_exec(&mp, &f);
                        out.push(r);
                        assert(remotes_view(out@) =~= before.push(r@));
                        assert(before + shares_of_sets(t@, i as int, mp@, j as int) =~= remotes_view(
                            out@,
                        ) + shares_of_sets(t@, i as int, mp@, j + 1));
                    }
                }
                j = j + 1;
            }
            assert(remotes_view(out@) + shares_of_sets(t@, i as int, mp@, n as int) =~= remotes_view(
                out@,
            ));
        },
        None => {
            assert(remotes_view(out@) =~= remotes_view(old(out)@) + Seq::<RemoteRecord>::empty());
        },
    }
}

impl RemoteSambaShareConfig {
    pub fn new(
        name: String,
        remote_path: String,
        fs_type: String,
        option_credentials: String,
        force_user: String,
        force_group: String,
    ) -> (r: Self)
        ensures
            r@ == (RemoteRecord {
                name: name@,
                remote_path: remote_path@,
                fs_type: fs_type@,
                option_credentials: option_credentials@,
                force_user: force_user@,
                force_group: force_group@,
            }),
    {
        RemoteSambaShareConfig {
            name,
            remote_path,
            fs_type,
            option_credentials,
            force_user,
            force_group,
        }
    }

    /// Every `cifs` mount that `content` defines as
    /// `fileSystems."<mount point>" = { ... };`, wherever it stands, in
    /// document order.
    pub fn load_all(content: &str) -> (r: Vec<Self>)
        ensures
            remotes_view(r@) == read_remotes(content@),
    {
        let t = SyntaxTree::parse(content);
        Self::shares_in(&t)
    }

    /// Every `cifs` mount that the syntax tree `t` defines, in document order.
    pub fn shares_in(t: &SyntaxTree) -> (r: Vec<Self>)
        requires
            t.wf(),
        ensures
            remotes_view(r@) == shares_upto(t@, t@.kinds.len() as int),
    {
        proof {
            t.lemma_wf();
        }
        let n = t.kinds.len();
        let mut out: Vec<Self> = Vec::new();
        let mut i: usize = 0;
        assert(remotes_view(out@) =~= shares_upto(t@, 0));
        while i < n
            invariant
                t.wf(),
                n == t@.kinds.len(),
                n == t.kinds@.len(),
                i <= n,
                remotes_view(out@) == shares_upto(t@, i as int),
            decreases n - i,
        {
            push_shares_of_node(t, i, &mut out);
            i = i + 1;
        }
        out
    }
}

// ---------------------------------------------------------------------------
// Writing
/// The items of an entry's `options` list, each quoted: the credentials file
/// where there is one, the automount settings, then `uid` and `gid` where set.
pub open spec fn option_items(r: RemoteRecord) -> Seq<Seq<char>> {
    (if r.option_credentials.len() > 0 {
        seq!["\"credentials="@ + r.option_credentials + "\""@]
    } else {
        Seq::empty()
    }) + seq![
        "\"x-systemd.automount\""@,
        "\"noauto\""@,
        "\"x-systemd.idle-timeout=300\""@,
        "\"x-systemd.device-timeout=10s\""@,
        "\"x-systemd.mount-timeout=10s\""@,
    ] + (if r.force_user.len() > 0 {
        seq!["\"uid="@ + r.force_user + "\""@]
    } else {
        Seq::empty()
    }) + (if r.force_group.len() > 0 {
        seq!["\"gid="@ + r.force_group + "\""@]
    } else {
        Seq::empty()
    })
}

/// The text of one `fileSystems` entry.
pub open spec fn render_remote(r: RemoteRecord) -> Seq<char> {
    "fileSystems."@ + entry_body(r)
}

/// An entry's text from its mount point on: `"<mount point>" = { ... };`.
pub open spec fn entry_body(r: RemoteRecord) -> Seq<char> {
    "\""@ + r.name + "\" = {\n  device = \""@ + r.remote_path + "\";\n  fsType = \""@ + r.fs_type
        + "\";\n  options = [\n    "@ + join(option_items(r), "\n    "@) + "\n  ];\n};"@
}

/// The last identifier or string of the attribute path `a`, from node `j`
/// on; `cur` where there is none.
pub open spec fn last_part(t: Tree, a: int, j: int, cur: Option<int>) -> Option<int>
    decreases t.kinds.len() - j,
{
    if j < 0 || j >= t.kinds.len() {
        cur
    } else if is_child(t, a, j) && (t.kinds[j] == NodeKind::Ident || t.kinds[j] == NodeKind::Str) {
        last_part(t, a, j + 1, Some(j))
    } else {
        last_part(t, a, j + 1, cur)
    }
}

/// Where the mount point of entry `i` starts in the text: at the last part
/// of its own attribute path, or at the entry itself where it names none.
pub open spec fn key_start(t: Tree, i: int) -> int {
    match first_child(t, i, NodeKind::Attrpath, 0) {
        Some(a) => match last_part(t, a, 0, None) {
            Some(k) => t.starts[k],
            None => t.starts[i],
        },
        None => t.starts[i],
    }
}

/// The first node, from node `i` on, that is the entry of mount point `name`.
pub open spec fn entry_node(t: Tree, name: Seq<char>, i: int) -> Option<int>
    decreases t.kinds.len() - i,
{
    if i < 0 || i >= t.kinds.len() {
        None
    } else if mount_point_of(t, i) == Some(name) {
        Some(i)
    } else {
        entry_node(t, name, i + 1)
    }
}

/// The span of `content` that holds the entry of mount point `name`, from its
/// attribute path to its closing `;`, and where its mount point starts in
/// that span. It is found only where the parsed tree holds all of the text.
pub open spec fn entry_span(content: Seq<char>, name: Seq<char>) -> Option<(int, int, int)> {
    let t = nix_tree(content);
    if t.text == content {
        match entry_node(t, name, 0) {
            Some(i) => if 0 <= t.starts[i] <= key_start(t, i) <= t.ends[i] <= content.len() {
                Some((t.starts[i], key_start(t, i), t.ends[i]))
            } else {
                None
            },
            None => None,
        }
    } else {
        None
    }
}

/// The end of the run of line breaks that starts at `i`.
pub open spec fn line_breaks_end(s: Seq<char>, i: int) -> int
    decreases s.len() - i,
{
    if 0 <= i < s.len() && (s[i] == '\n' || s[i] == '\r') {
        line_breaks_end(s, i + 1)
    } else {
        i
    }
}

pub open spec fn entry_not_found(name: Seq<char>) -> Seq<char> {
    "Could not find filesystem entry for '"@ + name + "'"@
}

/// `content` with the text of `r` added before its last `}`.
pub open spec fn write_remote_result(content: Seq<char>, r: RemoteRecord) -> Result<
    Seq<char>,
    Seq<char>,
> {
    match rfind_char(content, '}') {
        Some(p) => Ok(splice(content, p, p, render_remote(r) + "\n\n"@)),
        None => Err("Could not find insertion point in config file"@),
    }
}

/// `content` without the entry of mount point `name` and the line breaks
/// right after it.
pub open spec fn delete_remote_result(content: Seq<char>, name: Seq<char>) -> Result<
    Seq<char>,
    Seq<char>,
> {
    match entry_span(content, name) {
        Some((a, _, b)) => Ok(splice(content, a, line_breaks_end(content, b), Seq::empty())),
        None => Err(entry_not_found(name)),
    }
}

/// `content` with the entry of mount point `old`, from its mount point on,
/// replaced by the text of `r` where the mount point stays (so whatever
/// stands before the mount point, `fileSystems.` or an enclosing block,
/// stays); otherwise the old entry deleted and `r` added.
pub open spec fn update_remote_result(
    content: Seq<char>,
    r: RemoteRecord,
    old: Seq<char>,
) -> Result<Seq<char>, Seq<char>> {
    if old == r.name {
        match entry_span(content, old) {
            Some((_, k, b)) => Ok(splice(content, k, b, entry_body(r))),
            None => Err(entry_not_found(old)),
        }
    } else {
        match delete_remote_result(content, old) {
            Ok(c) => write_remote_result(c, r),
            Err(e) => Err(e),
        }
    }
}

fn quoted_item(prefix: &str, value: &String) -> (r: Vec<char>)
    ensures
        r@ == prefix@ + value@ + "\""@,
{
    let mut s = String::from_str(prefix);
    s.append(value.as_str());
    s.append("\"");
    chars_of(s.as_str())
}

/// The entry of mount point `name` in `content`: its span.
fn last_part_exec(t: &SyntaxTree, a: usize) -> (r: Option<usize>)
    requires
        t.wf(),
    ensures
        match r {
            Some(k) => last_part(t@, a as int, 0, None) == Some(k as int) && k < t.kinds@.len(),
            None => last_part(t@, a as int, 0, None) is None,
        },
{
    proof {
        t.lemma_wf();
    }
    let n = t.kinds.len();
    let mut cur: Option<usize> = None;
    let mut j: usize = 0;
    while j < n
        invariant
            t.wf(),
            n == t@.kinds.len(),
            n == t.kinds@.len(),
            j <= n,
            last_part(t@, a as int, 0, None) == last_part(
                t@,
                a as int,
                j as int,
                match cur {
                    Some(k) => Some(k as int),
                    None => None,
                },
            ),
            match cur {
                Some(k) => k < n,
                None => true,
            },
        decreases n - j,
    {
        proof {
            t.lemma_wf();
        }
        if is_child_exec(t, a, j) && (t.kinds[j] == NodeKind::Ident || t.kinds[j] == NodeKind::Str) {
            cur = Some(j);
        }
        j = j + 1;
    }
    cur
}

fn key_start_exec(t: &SyntaxTree, i: usize) -> (r: usize)
    requires
        t.wf(),
        i < t.kinds@.len(),
    ensures
        r as int == key_start(t@, i as int),
{
    proof {
        t.lemma_wf();
    }
    match first_child_exec(t, i, NodeKind::Attrpath) {
        Some(a) => match last_part_exec(t, a) {
            Some(k) => t.starts[k],
            None => t.starts[i],
        },
        None => t.starts[i],
    }
}

fn entry_span_exec(content: &str, name: &str) -> (r: Option<(usize, usize, usize)>)
    ensures
        match r {
            Some((a, k, b)) => entry_span(content@, name@) == Some((a as int, k as int, b as int)),
            None => entry_span(content@, name@) is None,
        },
{
    let t = SyntaxTree::parse(content);
    proof {
        t.lemma_wf();
    }
    let c = chars_of(content);
    if !same_chars(&t.text, &c) {
        return None;
    }
    let name_chars = chars_of(name);
    let n = t.kinds.len();
    let mut i: usize = 0;
    while i < n
        invariant
            t.wf(),
            t@ == nix_tree(content@),
            t@.text == content@,
            name_chars@ == name@,
            n == t@.kinds.len(),
            n == t.kinds@.len(),
            i <= n,
            entry_node(t@, name@, 0) == entry_node(t@, name@, i as int),
        decreases n - i,
    {
        proof {
            t.lemma_wf();
        }
        match mount_point_of_exec(&t, i) {
            Some(mp) => {
                if same_chars(&mp, &name_chars) {
                    let a = t.starts[i];
                    let k = key_start_exec(&t, i);
                    let b = t.ends[i];
                    if a <= k && k <= b && b <= t.text.len() {
                        return Some((a, k, b));
                    } else {
                        return None;
                    }
                }
            },
            None => {},
        }
        i = i + 1;
    }
    None
}

fn line_breaks_end_exec(s: &Vec<char>, i: usize) -> (r: usize)
    requires
        i <= s@.len(),
    ensures
        r == line_breaks_end(s@, i as int),
        i <= r <= s@.len(),
{
    let mut j: usize = i;
    while j < s.len() && (s[j] == '\n' || s[j] == '\r')
        invariant
            i <= j <= s@.len(),
            line_breaks_end(s@, i as int) == line_breaks_end(s@, j as int),
        decreases s@.len() - j,
    {
        j = j + 1;
    }
    j
}

fn entry_not_found_exec(name: &str) -> (r: String)
    ensures
        r@ == entry_not_found(name@),
{
    let mut m = String::from_str("Could not find filesystem entry for '");
    m.append(name);
    m.append("'");
    m
}

impl RemoteSambaShareConfig {
    /// The entry's text, as it stands in the configuration.
    pub fn render(&self) -> (r: String)
        ensures
            r@ == render_remote(self@),
    {
        let mut r = String::from_str("fileSystems.");
        r.append(self.render_body().as_str());
        r
    }

    /// The entry's text from its mount point on.
    pub fn render_body(&self) -> (r: String)
        ensures
            r@ == entry_body(self@),
    {
        let mut items: Vec<Vec<char>> = Vec::new();
        if self.option_credentials.unicode_len() > 0 {
            items.push(quoted_item("\"credentials=", &self.option_credentials));
        }
        items.push(chars_of("\"x-systemd.automount\""));
        items.push(chars_of("\"noauto\""));
        items.push(chars_of("\"x-systemd.idle-timeout=300\""));
        items.push(chars_of("\"x-systemd.device-timeout=10s\""));
        items.push(chars_of("\"x-systemd.mount-timeout=10s\""));
        if self.force_user.unicode_len() > 0 {
            items.push(quoted_item("\"uid=", &self.force_user));
        }
        if self.force_group.unicode_len() > 0 {
            items.push(quoted_item("\"gid=", &self.force_group));
        }
        assert(texts(items@) =~= option_items(self@));
        let joined = string_of(&join_chars(&items, &chars_of("\n    ")));
        let mut r = String::from_str("\"");
        r.append(self.name.as_str());
        r.append("\" = {\n  device = \"");
        r.append(self.remote_path.as_str());
        r.append("\";\n  fsType = \"");
        r.append(self.fs_type.as_str());
        r.append("\";\n  options = [\n    ");
        r.append(joined.as_str());
        r.append("\n  ];\n};");
        r
    }

    /// `content` with this share's entry added before its last `}`.
    pub fn write(&self, content: &str) -> (r: Result<String, String>)
        ensures
            result_view(r) == write_remote_result(content@, self@),
    {
        let c = chars_of(content);
        match rfind_char_exec(&c, '}') {
            Some(p) => {
                proof {
                    lemma_rfind_char_bound(c@, '}');
                }
                let mut ins = self.render();
                ins.append("\n\n");
                Ok(splice_exec(content, p, p, ins.as_str()))
            },
            None => Err(String::from_str("Could not find insertion point in config file")),
        }
    }

    /// `content` without the entry of mount point `name` and the line breaks
    /// that follow it.
    pub fn delete(&self, name: &str, content: &str) -> (r: Result<String, String>)
        ensures
            result_view(r) == delete_remote_result(content@, name@),
    {
        match entry_span_exec(content, name) {
            Some((a, _, b)) => {
                let c = chars_of(content);
                let e = line_breaks_end_exec(&c, b);
                proof {
                    reveal_strlit("");
                }
                Ok(splice_exec(content, a, e, ""))
            },
            None => Err(entry_not_found_exec(name)),
        }
    }

    /// `content` with the entry of mount point `old_name` rewritten as this
    /// share. Where the mount point changes, the old entry is deleted and the
    /// new one added as [`RemoteSambaShareConfig::write`] does.
    pub fn update(&self, old_name: &str, content: &str) -> (r: Result<String, String>)
        ensures
            result_view(r) == update_remote_result(content@, self@, old_name@),
    {
        if same_chars(&chars_of(old_name), &chars_of(self.name.as_str())) {
            match entry_span_exec(content, old_name) {
                Some((_, k, b)) => Ok(splice_exec(content, k, b, self.render_body().as_str())),
                None => Err(entry_not_found_exec(old_name)),
            }
        } else {
            match self.delete(old_name, content) {
                Ok(c) => self.write(c.as_str()),
                Err(e) => Err(e),
            }
        }
    }
}

// ---------------------------------------------------------------------------
// Laws
proof fn lemma_line_breaks_end_bound(s: Seq<char>, i: int)
    requires
        0 <= i <= s.len(),
    ensures
        i <= line_breaks_end(s, i) <= s.len(),
    decreases s.len() - i,
{
    if 0 <= i < s.len() && (s[i] == '\n' || s[i] == '\r') {
        lemma_line_breaks_end_bound(s, i + 1);
    }
}

/// Adding a remote share changes no character of the text: its entry is put
/// in at a single place, before the last `}`.
pub proof fn lemma_write_remote_keeps_text(s: Seq<char>, r: RemoteRecord)
    ensures
        write_remote_result(s, r) is Ok ==> exists|p: int|
            0 <= p < s.len() && s[p] == '}' && write_remote_result(s, r)->Ok_0 == splice(
                s,
                p,
                p,
                render_remote(r) + "\n\n"@,
            ),
{
    lemma_rfind_char_bound(s, '}');
}

/// Deleting a remote share changes no character outside its entry and the
/// line breaks right after it.
pub proof fn lemma_delete_remote_keeps_text(s: Seq<char>, name: Seq<char>)
    ensures
        delete_remote_result(s, name) is Ok ==> exists|a: int, k: int, b: int|
            0 <= a <= k <= b <= s.len() && entry_span(s, name) == Some((a, k, b))
                && delete_remote_result(s, name)->Ok_0 == splice(
                s,
                a,
                line_breaks_end(s, b),
                Seq::empty(),
            ) && forall|j: int| b <= j < line_breaks_end(s, b) ==> (s[j] == '\n' || s[j] == '\r'),
{
    if let Some((a, k, b)) = entry_span(s, name) {
        lemma_line_breaks_end_bound(s, b);
        lemma_line_breaks_only(s, b);
    }
}

proof fn lemma_line_breaks_only(s: Seq<char>, i: int)
    requires
        0 <= i <= s.len(),
    ensures
        forall|k: int| i <= k < line_breaks_end(s, i) ==> (s[k] == '\n' || s[k] == '\r'),
    decreases s.len() - i,
{
    if 0 <= i < s.len() && (s[i] == '\n' || s[i] == '\r') {
        lemma_line_breaks_only(s, i + 1);
    }
}

/// Rewriting a remote share in place changes no character outside its entry,
/// nor any before its mount point.
pub proof fn lemma_update_remote_keeps_text(s: Seq<char>, r: RemoteRecord)
    ensures
        update_remote_result(s, r, r.name) is Ok ==> exists|a: int, k: int, b: int|
            0 <= a <= k <= b <= s.len() && entry_span(s, r.name) == Some((a, k, b))
                && update_remote_result(s, r, r.name)->Ok_0 == splice(s, k, b, entry_body(r)),
{
}

/// Reading remote shares depends on the text alone: the same text read twice
/// gives the same shares.
pub proof fn lemma_read_remotes_deterministic(a: Seq<char>, b: Seq<char>)
    requires
        a == b,
    ensures
        read_remotes(a) == read_remotes(b),
{
}

} // verus!
