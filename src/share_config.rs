//! Local shares: the entries of the `settings` block of `services.samba`.
//!
//! The reader and the updater work on the syntax tree that rnix parses from
//! the text, so the layout of lines and the way keys are split or quoted do
//! not matter; the writer finds the block's closing line. The writer and the
//! updater splice exactly one entry into the text and leave every other
//! character as it was.
use crate::text::{
    char_is_whitespace, chars_of, find_char_exec, find_char_from, is_white_space, join, join_chars,
    lemma_find_char_from_bounds, lemma_rfind_char_bound, rfind_char, rfind_char_exec, same_chars,
    splice, splice_exec, string_of, sub_vec, texts, trim, trim_vec,
};
use crate::nix_syntax::{
    attr_name, attr_name_exec, attr_value, ends_with_parts, ends_with_parts_exec, first_child,
    first_child_exec, first_scalar_exec, full_path, full_path_exec, is_child, is_child_exec,
    nix_tree, scalar_value_exec, NodeKind, SyntaxTree, Tree,
};
use vstd::prelude::*;
use vstd::string::*;

verus! {

/// One exported folder.
pub struct SambaShareConfig {
    pub name: String,
    pub path: String,
    pub browsable: bool,
    pub read_only: bool,
    pub guest_ok: bool,
    pub force_user: String,
    pub force_group: String,
}

/// The value of a [`SambaShareConfig`].
pub struct ShareRecord {
    pub name: Seq<char>,
    pub path: Seq<char>,
    pub browsable: bool,
    pub read_only: bool,
    pub guest_ok: bool,
    pub force_user: Seq<char>,
    pub force_group: Seq<char>,
}

impl View for SambaShareConfig {
    type V = ShareRecord;

    open spec fn view(&self) -> ShareRecord {
        ShareRecord {
            name: self.name@,
            path: self.path@,
            browsable: self.browsable,
            read_only: self.read_only,
            guest_ok: self.guest_ok,
            force_user: self.force_user@,
            force_group: self.force_group@,
        }
    }
}

pub open spec fn shares_view(v: Seq<SambaShareConfig>) -> Seq<ShareRecord> {
    v.map_values(|s: SambaShareConfig| s@)
}

pub open spec fn result_view(r: Result<String, String>) -> Result<Seq<char>, Seq<char>> {
    match r {
        Ok(t) => Ok(t@),
        Err(e) => Err(e@),
    }
}

// ---------------------------------------------------------------------------
// Lines
/// The end of the line that starts at `pos`: the next newline, or the end of `s`.
pub open spec fn line_end(s: Seq<char>, pos: int) -> int {
    match find_char_from(s, '\n', pos) {
        Some(i) => i,
        None => s.len() as int,
    }
}

pub proof fn lemma_line_end(s: Seq<char>, pos: int)
    requires
        0 <= pos <= s.len(),
    ensures
        pos <= line_end(s, pos) <= s.len(),
        forall|k: int| pos <= k < line_end(s, pos) ==> s[k] != '\n',
        line_end(s, pos) < s.len() ==> s[line_end(s, pos)] == '\n',
{
    lemma_find_char_from_bounds(s, '\n', pos);
}

/// The end of the line of `s` that starts at `pos`.
pub fn line_end_exec(s: &Vec<char>, pos: usize) -> (r: usize)
    requires
        pos <= s@.len(),
    ensures
        r == line_end(s@, pos as int),
        pos <= r <= s@.len(),
{
    proof {
        lemma_line_end(s@, pos as int);
    }
    match find_char_exec(s, '\n', pos) {
        Some(i) => i,
        None => s.len(),
    }
}

// ---------------------------------------------------------------------------
// Rendering
pub open spec fn yes_no(b: bool) -> Seq<char> {
    if b {
        "yes"@
    } else {
        "no"@
    }
}

/// The lines of one entry of the `settings` block.
pub open spec fn share_lines(r: ShareRecord) -> Seq<Seq<char>> {
    seq![
        "    \""@ + r.name + "\" = {"@,
        "      path = \""@ + r.path + "\";"@,
        "      browseable = "@ + yes_no(r.browsable) + ";"@,
        "      \"read only\" = "@ + yes_no(r.read_only) + ";"@,
        "      \"guest ok\" = "@ + yes_no(r.guest_ok) + ";"@,
        "      \"force user\" = \""@ + r.force_user + "\";"@,
        "      \"force group\" = \""@ + r.force_group + "\";"@,
        "    };"@,
    ]
}

/// The text of one entry of the `settings` block: its lines, joined by line breaks.
pub open spec fn render_share(r: ShareRecord) -> Seq<char> {
    join(share_lines(r), "\n"@)
}

/// The text that opens a new `services.samba` block, up to its first share.
pub open spec fn section_head() -> Seq<char> {
    "\n  services.samba = {\n    enable = true;\n    securityType = \"user\";\n    openFirewall = true;\n    settings = {\n        global = {\n          \"workgroup\" = \"WORKGROUP\";\n          \"server string\" = \"smbnix\";\n          \"netbios name\" = \"smbnix\";\n          \"security\" = \"user\";\n          #\"use sendfile\" = \"yes\";\n          #\"max protocol\" = \"smb2\";\n          # note: localhost is the ipv6 localhost ::1\n          \"hosts allow\" = \"192.168.0. 127.0.0.1 localhost\";\n          \"hosts deny\" = \"0.0.0.0/0\";\n          \"guest account\" = \"nobody\";\n          \"map to guest\" = \"bad user\";\n        };\n"@
}

/// The text that closes a new `services.samba` block, after its first share.
pub open spec fn section_tail() -> Seq<char> {
    "\n    };\n  };"@
}

fn yes_no_exec(b: bool) -> (r: &'static str)
    ensures
        r@ == yes_no(b),
{
    if b {
        "yes"
    } else {
        "no"
    }
}

impl SambaShareConfig {
    pub fn new(
        name: String,
        path: String,
        browsable: bool,
        read_only: bool,
        guest_ok: bool,
        force_user: String,
        force_group: String,
    ) -> (r: Self)
        ensures
            r@ == (ShareRecord {
                name: name@,
                path: path@,
                browsable,
                read_only,
                guest_ok,
                force_user: force_user@,
                force_group: force_group@,
            }),
    {
        SambaShareConfig { name, path, browsable, read_only, guest_ok, force_user, force_group }
    }

    /// The entry's text, as it stands in the `settings` block.
    pub fn render(&self) -> (r: String)
        ensures
            r@ == render_share(self@),
    {
        let mut lines: Vec<Vec<char>> = Vec::new();
        lines.push(piece3("    \"", self.name.as_str(), "\" = {"));
        lines.push(piece3("      path = \"", self.path.as_str(), "\";"));
        lines.push(piece3("      browseable = ", yes_no_exec(self.browsable), ";"));
        lines.push(piece3("      \"read only\" = ", yes_no_exec(self.read_only), ";"));
        lines.push(piece3("      \"guest ok\" = ", yes_no_exec(self.guest_ok), ";"));
        lines.push(piece3("      \"force user\" = \"", self.force_user.as_str(), "\";"));
        lines.push(piece3("      \"force group\" = \"", self.force_group.as_str(), "\";"));
        lines.push(chars_of("    };"));
        assert(texts(lines@) =~= share_lines(self@));
        string_of(&join_chars(&lines, &chars_of("\n")))
    }
}

/// The characters of `a`, `b` and `c`, one after the other.
fn piece3(a: &str, b: &str, c: &str) -> (r: Vec<char>)
    ensures
        r@ == a@ + b@ + c@,
{
    let mut s = String::from_str(a);
    s.append(b);
    s.append(c);
    chars_of(s.as_str())
}

// ---------------------------------------------------------------------------
// Reading
/// Properties of the entry being read; the last assignment of a key wins.
pub struct PropsV {
    pub path: Option<Seq<char>>,
    pub browseable: Option<Seq<char>>,
    pub read_only: Option<Seq<char>>,
    pub guest_ok: Option<Seq<char>>,
    pub force_user: Option<Seq<char>>,
    pub force_group: Option<Seq<char>>,
}

pub open spec fn no_props() -> PropsV {
    PropsV {
        path: None,
        browseable: None,
        read_only: None,
        guest_ok: None,
        force_user: None,
        force_group: None,
    }
}

/// `key = value` recorded, where `key` is one of the properties of a share.
pub open spec fn set_prop(p: PropsV, key: Seq<char>, value: Seq<char>) -> PropsV {
    if key == "path"@ {
        PropsV { path: Some(value), ..p }
    } else if key == "browseable"@ {
        PropsV { browseable: Some(value), ..p }
    } else if key == "read only"@ {
        PropsV { read_only: Some(value), ..p }
    } else if key == "guest ok"@ {
        PropsV { guest_ok: Some(value), ..p }
    } else if key == "force user"@ {
        PropsV { force_user: Some(value), ..p }
    } else if key == "force group"@ {
        PropsV { force_group: Some(value), ..p }
    } else {
        p
    }
}

pub open spec fn flag_or(v: Option<Seq<char>>, absent: bool) -> bool {
    match v {
        Some(x) => x == "yes"@,
        None => absent,
    }
}

pub open spec fn text_or_empty(v: Option<Seq<char>>) -> Seq<char> {
    match v {
        Some(x) => x,
        None => Seq::empty(),
    }
}

/// The share that an entry's properties describe; `browseable` defaults to
/// true, `read only` and `guest ok` to false, the rest to empty text.
pub open spec fn share_of(name: Seq<char>, p: PropsV) -> ShareRecord {
    ShareRecord {
        name,
        path: text_or_empty(p.path),
        browsable: flag_or(p.browseable, true),
        read_only: flag_or(p.read_only, false),
        guest_ok: flag_or(p.guest_ok, false),
        force_user: text_or_empty(p.force_user),
        force_group: text_or_empty(p.force_group),
    }
}

pub open spec fn opt_chars(o: Option<Vec<char>>) -> Option<Seq<char>> {
    match o {
        Some(v) => Some(v@),
        None => None,
    }
}

struct Props {
    path: Option<Vec<char>>,
    browseable: Option<Vec<char>>,
    read_only: Option<Vec<char>>,
    guest_ok: Option<Vec<char>>,
    force_user: Option<Vec<char>>,
    force_group: Option<Vec<char>>,
}

impl View for Props {
    type V = PropsV;

    closed spec fn view(&self) -> PropsV {
        PropsV {
            path: opt_chars(self.path),
            browseable: opt_chars(self.browseable),
            read_only: opt_chars(self.read_only),
            guest_ok: opt_chars(self.guest_ok),
            force_user: opt_chars(self.force_user),
            force_group: opt_chars(self.force_group),
        }
    }
}

fn no_props_exec() -> (r: Props)
    ensures
        r@ == no_props(),
{
    Props {
        path: None,
        browseable: None,
        read_only: None,
        guest_ok: None,
        force_user: None,
        force_group: None,
    }
}

fn set_prop_exec(p: &mut Props, key: &Vec<char>, value: Vec<char>)
    ensures
        final(p)@ == set_prop(old(p)@, key@, value@),
{
    if same_chars(key, &chars_of("path")) {
        p.path = Some(value);
    } else if same_chars(key, &chars_of("browseable")) {
        p.browseable = Some(value);
    } else if same_chars(key, &chars_of("read only")) {
        p.read_only = Some(value);
    } else if same_chars(key, &chars_of("guest ok")) {
        p.guest_ok = Some(value);
    } else if same_chars(key, &chars_of("force user")) {
        p.force_user = Some(value);
    } else if same_chars(key, &chars_of("force group")) {
        p.force_group = Some(value);
    }
}

fn flag_or_exec(v: &Option<Vec<char>>, absent: bool) -> (r: bool)
    ensures
        r == flag_or(opt_chars(*v), absent),
{
    match v {
        Some(x) => same_chars(x, &chars_of("yes")),
        None => absent,
    }
}

fn text_or_empty_exec(v: &Option<Vec<char>>) -> (r: String)
    ensures
        r@ == text_or_empty(opt_chars(*v)),
{
    match v {
        Some(x) => string_of(x),
        None => String::new(),
    }
}

fn share_of_exec(name: &Vec<char>, p: &Props) -> (r: SambaShareConfig)
    ensures
        r@ == share_of(name@, p@),
{
    SambaShareConfig {
        name: string_of(name),
        path: text_or_empty_exec(&p.path),
        browsable: flag_or_exec(&p.browseable, true),
        read_only: flag_or_exec(&p.read_only, false),
        guest_ok: flag_or_exec(&p.guest_ok, false),
        force_user: text_or_empty_exec(&p.force_user),
        force_group: text_or_empty_exec(&p.force_group),
    }
}

// ---------------------------------------------------------------------------
// Writing
/// The start of the last line, at or after `pos`, whose trimmed text is `}`;
/// `best` when there is none.
pub open spec fn last_closing_from(s: Seq<char>, pos: int, best: Option<int>) -> Option<int>
    decreases s.len() + 1 - pos,
{
    if pos < 0 || pos > s.len() {
        best
    } else {
        let e = line_end(s, pos);
        if e < pos || e > s.len() {
            best
        } else {
            last_closing_from(
                s,
                e + 1,
                if trim(s.subrange(pos, e)) == "}"@ {
                    Some(pos)
                } else {
                    best
                },
            )
        }
    }
}

/// A whole `services.samba` block holding the one share `r`.
pub open spec fn render_section(r: ShareRecord) -> Seq<char> {
    section_head() + render_share(r) + section_tail()
}

/// The start of the line that holds position `i`.
pub open spec fn line_start(s: Seq<char>, i: int) -> int {
    match rfind_char(s.subrange(0, i), '\n') {
        Some(k) => k + 1,
        None => 0,
    }
}

/// Every character of `x` is white space.
pub open spec fn all_white(x: Seq<char>) -> bool {
    forall|k: int| 0 <= k < x.len() ==> is_white_space(x[k])
}

/// The text with share `r` added to block `c`: before the block's closing
/// `}`, as lines of their own. Where only white space precedes that `}` on its
/// line, and the line is not the block's first, the entry goes in at the
/// start of that line; otherwise it goes right before the `}`.
pub open spec fn block_insert(s: Seq<char>, t: Tree, c: int, r: ShareRecord) -> Result<
    Seq<char>,
    Seq<char>,
> {
    let close = t.ends[c] - 1;
    if t.text == s && 0 <= t.starts[c] <= close && close < t.ends[c] <= s.len() && s[close]
        == '}' {
        let q = line_start(s, close);
        if t.starts[c] < q && all_white(s.subrange(q, close)) {
            Ok(splice(s, q, q, render_share(r) + "\n"@))
        } else {
            Ok(splice(s, close, close, "\n"@ + render_share(r) + "\n"@))
        }
    } else {
        Err("Could not find end of services.samba.settings section"@)
    }
}

/// The text with share `r` added to the `settings` block of `services.samba`,
/// found as the reader finds it; or, where there is no such block, as a new
/// `services.samba` block before the last line that is a lone `}`.
pub open spec fn write_result(s: Seq<char>, r: ShareRecord) -> Result<Seq<char>, Seq<char>> {
    let t = nix_tree(s);
    match settings_block_from(t, 0) {
        Some(c) => block_insert(s, t, c, r),
        None => match last_closing_from(s, 0, None) {
            Some(p) => Ok(splice(s, p, p, render_section(r) + "\n"@)),
            None => Err("Could not find suitable location to add services.samba section"@),
        },
    }
}

spec fn opt_int(o: Option<usize>) -> Option<int> {
    match o {
        Some(i) => Some(i as int),
        None => None,
    }
}

/// The start of the last line of `s` whose trimmed text is `}`.
fn last_closing_exec(s: &Vec<char>) -> (r: Option<usize>)
    ensures
        match r {
            Some(p) => last_closing_from(s@, 0, None) == Some(p as int) && p <= s@.len(),
            None => last_closing_from(s@, 0, None) is None,
        },
{
    let mut best: Option<usize> = None;
    let mut pos: usize = 0;
    while pos <= s.len()
        invariant
            pos <= s@.len() + 1,
            last_closing_from(s@, 0, None) == last_closing_from(s@, pos as int, opt_int(best)),
            match best {
                Some(p) => p <= s@.len(),
                None => true,
            },
        decreases s@.len() + 1 - pos,
    {
        let e = line_end_exec(s, pos);
        let t = trim_vec(&sub_vec(s, pos, e));
        let ghost before = opt_int(best);
        if same_chars(&t, &chars_of("}")) {
            best = Some(pos);
        }
        assert(last_closing_from(s@, pos as int, before) == last_closing_from(
            s@,
            e + 1,
            opt_int(best),
        ));
        if e == s.len() {
            return best;
        }
        pos = e + 1;
    }
    best
}

impl SambaShareConfig {
    /// `content` with this share added to the `settings` block of
    /// `services.samba`, or with a new `services.samba` block holding it where
    /// the text has none. Every other character of `content` is kept.
    pub fn write(&self, content: &str) -> (r: Result<String, String>)
        ensures
            result_view(r) == write_result(content@, self@),
    {
        let t = SyntaxTree::parse(content);
        proof {
            t.lemma_wf();
        }
        let s = chars_of(content);
        match settings_block_exec(&t) {
            Some(c) => {
                let end = t.ends[c];
                let start = t.starts[c];
                if !same_chars(&t.text, &s) || end == 0 || start > end - 1 || end > s.len() || s[end
                    - 1] != '}' {
                    return Err(
                        String::from_str("Could not find end of services.samba.settings section"),
                    );
                }
                let close = end - 1;
                let before = sub_vec(&s, 0, close);
                let q = match rfind_char_exec(&before, '\n') {
                    Some(k) => {
                        proof {
                            lemma_rfind_char_bound(before@, '\n');
                        }
                        k + 1
                    },
                    None => 0,
                };
                let mut white = true;
                let mut i: usize = q;
                while i < close
                    invariant
                        q <= i <= close,
                        close < s@.len(),
                        white == (forall|k: int| q <= k < i ==> is_white_space(s@[k])),
                    decreases close - i,
                {
                    if !char_is_whitespace(s[i]) {
                        white = false;
                    }
                    i = i + 1;
                }
                assert(white == all_white(s@.subrange(q as int, close as int))) by {
                    let sub = s@.subrange(q as int, close as int);
                    if white {
                        assert forall|k: int| 0 <= k < sub.len() implies is_white_space(sub[k]) by {
                            assert(sub[k] == s@[q + k]);
                        }
                    } else {
                        let k = choose|k: int| q <= k < close && !is_white_space(s@[k]);
                        assert(sub[k - q] == s@[k]);
                    }
                }
                let mut ins = self.render();
                if start < q && white {
                    ins.append("\n");
                    Ok(splice_exec(content, q, q, ins.as_str()))
                } else {
                    let mut pre = String::from_str("\n");
                    pre.append(ins.as_str());
                    pre.append("\n");
                    Ok(splice_exec(content, close, close, pre.as_str()))
                }
            },
            None => match last_closing_exec(&s) {
                Some(p) => {
                    let mut ins = String::from_str(
                        "\n  services.samba = {\n    enable = true;\n    securityType = \"user\";\n    openFirewall = true;\n    settings = {\n        global = {\n          \"workgroup\" = \"WORKGROUP\";\n          \"server string\" = \"smbnix\";\n          \"netbios name\" = \"smbnix\";\n          \"security\" = \"user\";\n          #\"use sendfile\" = \"yes\";\n          #\"max protocol\" = \"smb2\";\n          # note: localhost is the ipv6 localhost ::1\n          \"hosts allow\" = \"192.168.0. 127.0.0.1 localhost\";\n          \"hosts deny\" = \"0.0.0.0/0\";\n          \"guest account\" = \"nobody\";\n          \"map to guest\" = \"bad user\";\n        };\n",
                    );
                    ins.append(self.render().as_str());
                    ins.append("\n    };\n  };");
                    ins.append("\n");
                    Ok(splice_exec(content, p, p, ins.as_str()))
                },
                None => Err(
                    String::from_str(
                        "Could not find suitable location to add services.samba section",
                    ),
                ),
            },
        }
    }

}

// ---------------------------------------------------------------------------
// Reading and updating through the syntax tree
/// The attribute path of the block that holds the shares.
pub open spec fn settings_path() -> Seq<Seq<char>> {
    seq!["services"@, "samba"@, "settings"@]
}

/// The `settings` block: the attribute set that is the value of the first
/// entry, from node `j` on in document order, whose full attribute path ends
/// in `services`, `samba`, `settings`, however its keys are split, quoted or
/// nested.
pub open spec fn settings_block_from(t: Tree, j: int) -> Option<int>
    decreases t.kinds.len() - j,
{
    if j < 0 || j >= t.kinds.len() {
        None
    } else if t.kinds[j] == NodeKind::AttrpathValue && ends_with_parts(
        full_path(t, j),
        settings_path(),
    ) && first_child(t, j, NodeKind::AttrSet, 0) is Some {
        first_child(t, j, NodeKind::AttrSet, 0)
    } else {
        settings_block_from(t, j + 1)
    }
}

/// The properties set by the entries of the attribute set `s`, from node `j`
/// on, after `p`: each entry whose value is a string or an identifier.
pub open spec fn props_from(t: Tree, s: int, j: int, p: PropsV) -> PropsV
    decreases t.kinds.len() - j,
{
    if j < 0 || j >= t.kinds.len() {
        p
    } else if is_child(t, s, j) && t.kinds[j] == NodeKind::AttrpathValue {
        props_from(
            t,
            s,
            j + 1,
            match (attr_name(t, j), attr_value(t, j)) {
                (Some(k), Some(v)) => set_prop(p, k, v),
                _ => p,
            },
        )
    } else {
        props_from(t, s, j + 1, p)
    }
}

/// The share that entry `e`, named `name`, describes.
pub open spec fn entry_share(t: Tree, e: int, name: Seq<char>) -> ShareRecord {
    share_of(
        name,
        match first_child(t, e, NodeKind::AttrSet, 0) {
            Some(s) => props_from(t, s, 0, no_props()),
            None => no_props(),
        },
    )
}

/// The shares of the direct entries of block `c`, from node `j` on, in
/// document order, without the `global` section.
pub open spec fn block_shares(t: Tree, c: int, j: int) -> Seq<ShareRecord>
    decreases t.kinds.len() - j,
{
    if j < 0 || j >= t.kinds.len() {
        Seq::empty()
    } else {
        let rest = block_shares(t, c, j + 1);
        if is_child(t, c, j) && t.kinds[j] == NodeKind::AttrpathValue {
            match attr_name(t, j) {
                Some(n) => if n != "global"@ {
                    seq![entry_share(t, j, n)] + rest
                } else {
                    rest
                },
                None => rest,
            }
        } else {
            rest
        }
    }
}

/// The shares that the `settings` block of a syntax tree defines; none where
/// there is no such block.
pub open spec fn shares_of_tree(t: Tree) -> Seq<ShareRecord> {
    match settings_block_from(t, 0) {
        Some(c) => block_shares(t, c, 0),
        None => Seq::empty(),
    }
}

/// The shares that a configuration text defines: each direct entry of its
/// `settings` block is one share, whatever the layout of its lines.
pub open spec fn read_shares(s: Seq<char>) -> Seq<ShareRecord> {
    shares_of_tree(nix_tree(s))
}

/// The first direct entry of block `c` named `old`, from node `j` on.
pub open spec fn block_entry(t: Tree, c: int, old: Seq<char>, j: int) -> Option<int>
    decreases t.kinds.len() - j,
{
    if j < 0 || j >= t.kinds.len() {
        None
    } else if is_child(t, c, j) && t.kinds[j] == NodeKind::AttrpathValue && attr_name(t, j)
        == Some(old) {
        Some(j)
    } else {
        block_entry(t, c, old, j + 1)
    }
}

/// The direct entry of the `settings` block named `old`, if any.
pub open spec fn settings_entry(t: Tree, old: Seq<char>) -> Option<int> {
    match settings_block_from(t, 0) {
        Some(c) => block_entry(t, c, old, 0),
        None => None,
    }
}

pub open spec fn share_not_found(old: Seq<char>) -> Seq<char> {
    "Share '"@ + old + "' not found in configuration"@
}

/// The text with the direct entry `old` of the `settings` block, from its key
/// to its closing `;`, replaced by the text of `r`; deeper entries with the
/// same key are never touched. The entry is found only where the parsed tree
/// holds all of the text.
pub open spec fn update_result(s: Seq<char>, r: ShareRecord, old: Seq<char>) -> Result<
    Seq<char>,
    Seq<char>,
> {
    let t = nix_tree(s);
    match settings_entry(t, old) {
        Some(e) => if t.text == s && 0 <= t.starts[e] <= t.ends[e] <= s.len() {
            Ok(splice(s, t.starts[e], t.ends[e], trim(render_share(r))))
        } else {
            Err(share_not_found(old))
        },
        None => Err(share_not_found(old)),
    }
}

fn settings_block_exec(t: &SyntaxTree) -> (r: Option<usize>)
    requires
        t.wf(),
    ensures
        match r {
            Some(c) => settings_block_from(t@, 0) == Some(c as int) && c < t.kinds@.len(),
            None => settings_block_from(t@, 0) is None,
        },
{
    proof {
        t.lemma_wf();
    }
    let mut path: Vec<Vec<char>> = Vec::new();
    path.push(chars_of("services"));
    path.push(chars_of("samba"));
    path.push(chars_of("settings"));
    assert(texts(path@) =~= settings_path());
    let n = t.kinds.len();
    let mut j: usize = 0;
    while j < n
        invariant
            t.wf(),
            n == t@.kinds.len(),
            n == t.kinds@.len(),
            j <= n,
            texts(path@) == settings_path(),
            settings_block_from(t@, 0) == settings_block_from(t@, j as int),
        decreases n - j,
    {
        proof {
            t.lemma_wf();
        }
        if t.kinds[j] == NodeKind::AttrpathValue && ends_with_parts_exec(
            &full_path_exec(t, j),
            &path,
        ) {
            match first_child_exec(t, j, NodeKind::AttrSet) {
                Some(c) => {
                    return Some(c);
                },
                None => {},
            }
        }
        j = j + 1;
    }
    None
}

fn entry_share_exec(t: &SyntaxTree, e: usize, name: &Vec<char>) -> (r: SambaShareConfig)
    requires
        t.wf(),
    ensures
        r@ == entry_share(t@, e as int, name@),
{
    proof {
        t.lemma_wf();
    }
    let mut p = no_props_exec();
    match first_child_exec(t, e, NodeKind::AttrSet) {
        Some(s) => {
            let n = t.kinds.len();
            let mut j: usize = 0;
            while j < n
                invariant
                    t.wf(),
                    n == t@.kinds.len(),
                    n == t.kinds@.len(),
                    j <= n,
                    props_from(t@, s as int, 0, no_props()) == props_from(
                        t@,
                        s as int,
                        j as int,
                        p@,
                    ),
                decreases n - j,
            {
                proof {
                    t.lemma_wf();
                }
                if is_child_exec(t, s, j) && t.kinds[j] == NodeKind::AttrpathValue {
                    match attr_name_exec(t, j) {
                        Some(k) => match first_scalar_exec(t, j) {
                            Some(v) => {
                                let value = scalar_value_exec(t, v);
                                set_prop_exec(&mut p, &k, value);
                            },
                            None => {},
                        },
                        None => {},
                    }
                }
                j = j + 1;
            }
        },
        None => {},
    }
    share_of_exec(name, &p)
}

fn block_entry_exec(t: &SyntaxTree, c: usize, old: &Vec<char>) -> (r: Option<usize>)
    requires
        t.wf(),
    ensures
        match r {
            Some(e) => block_entry(t@, c as int, old@, 0) == Some(e as int) && e
                < t.kinds@.len(),
            None => block_entry(t@, c as int, old@, 0) is None,
        },
{
    proof {
        t.lemma_wf();
    }
    let n = t.kinds.len();
    let mut j: usize = 0;
    while j < n
        invariant
            t.wf(),
            n == t@.kinds.len(),
            n == t.kinds@.len(),
            j <= n,
            block_entry(t@, c as int, old@, 0) == block_entry(t@, c as int, old@, j as int),
        decreases n - j,
    {
        proof {
            t.lemma_wf();
        }
        if is_child_exec(t, c, j) && t.kinds[j] == NodeKind::AttrpathValue {
            match attr_name_exec(t, j) {
                Some(k) => {
                    if same_chars(&k, old) {
                        return Some(j);
                    }
                },
                None => {},
            }
        }
        j = j + 1;
    }
    None
}

impl SambaShareConfig {
    /// Every share that the `settings` block of `services.samba` in `content`
    /// defines: one for each direct entry of the block, in document order,
    /// without the `global` section. A text without that block has none.
    pub fn load_all(content: &str) -> (r: Vec<Self>)
        ensures
            shares_view(r@) == read_shares(content@),
    {
        let t = SyntaxTree::parse(content);
        Self::shares_in(&t)
    }

    /// Every share that the `settings` block of the syntax tree `t` defines.
    pub fn shares_in(t: &SyntaxTree) -> (r: Vec<Self>)
        requires
            t.wf(),
        ensures
            shares_view(r@) == shares_of_tree(t@),
    {
        proof {
            t.lemma_wf();
        }
        let mut out: Vec<Self> = Vec::new();
        match settings_block_exec(t) {
            Some(c) => {
                let n = t.kinds.len();
                let mut j: usize = 0;
                assert(shares_view(out@) + block_shares(t@, c as int, 0) =~= block_shares(
                    t@,
                    c as int,
                    0,
                ));
                while j < n
                    invariant
                        t.wf(),
                        n == t@.kinds.len(),
                        n == t.kinds@.len(),
                        j <= n,
                        shares_view(out@) + block_shares(t@, c as int, j as int) == block_shares(
                            t@,
                            c as int,
                            0,
                        ),
                    decreases n - j,
                {
                    proof {
                        t.lemma_wf();
                    }
                    let ghost before = shares_view(out@);
                    if is_child_exec(t, c, j) && t.kinds[j] == NodeKind::AttrpathValue {
                        match attr_name_exec(t, j) {
                            Some(name) => {
                                if !same_chars(&name, &chars_of("global")) {
                                    let share = entry_share_exec(t, j, &name);
                                    out.push(share);
                                    assert(shares_view(out@) =~= before.push(share@));
                                    assert(before + block_shares(t@, c as int, j as int)
                                        =~= shares_view(out@) + block_shares(
                                        t@,
                                        c as int,
                                        j + 1,
                                    ));
                                }
                            },
                            None => {},
                        }
                    }
                    j = j + 1;
                }
                assert(shares_view(out@) + block_shares(t@, c as int, n as int) =~= shares_view(
                    out@,
                ));
            },
            None => {
                assert(shares_view(out@) =~= Seq::<ShareRecord>::empty());
            },
        }
        out
    }

    /// `content` with the direct entry `old_name` of the `settings` block,
    /// from its key to its closing `;`, replaced by this share's text; the
    /// share's own name may differ from `old_name`. An entry with that key
    /// nested deeper is never matched, and every other character is kept.
    pub fn update(&self, old_name: &str, content: &str) -> (r: Result<String, String>)
        ensures
            result_view(r) == update_result(content@, self@, old_name@),
    {
        let t = SyntaxTree::parse(content);
        proof {
            t.lemma_wf();
        }
        let old = chars_of(old_name);
        let found = match settings_block_exec(&t) {
            Some(c) => block_entry_exec(&t, c, &old),
            None => None,
        };
        let mut msg = String::from_str("Share '");
        msg.append(old_name);
        msg.append("' not found in configuration");
        match found {
            Some(e) => {
                let a = t.starts[e];
                let b = t.ends[e];
                if same_chars(&t.text, &chars_of(content)) && a <= b && b <= t.text.len() {
                    let text = string_of(&trim_vec(&chars_of(self.render().as_str())));
                    Ok(splice_exec(content, a, b, text.as_str()))
                } else {
                    Err(msg)
                }
            },
            None => Err(msg),
        }
    }
}

// ---------------------------------------------------------------------------
// Laws
proof fn lemma_last_closing_bound(s: Seq<char>, pos: int, best: Option<int>)
    requires
        0 <= pos,
        match best {
            Some(p) => 0 <= p <= s.len(),
            None => true,
        },
    ensures
        match last_closing_from(s, pos, best) {
            Some(p) => 0 <= p <= s.len(),
            None => true,
        },
    decreases s.len() + 1 - pos,
{
    if pos <= s.len() {
        let e = line_end(s, pos);
        if e >= pos && e <= s.len() {
            lemma_last_closing_bound(
                s,
                e + 1,
                if trim(s.subrange(pos, e)) == "}"@ {
                    Some(pos)
                } else {
                    best
                },
            );
        }
    }
}

proof fn lemma_line_start_bound(s: Seq<char>, i: int)
    requires
        0 <= i <= s.len(),
    ensures
        0 <= line_start(s, i) <= i,
{
    crate::text::lemma_rfind_char_bound(s.subrange(0, i), '\n');
}

/// `w` is `s` with the entry of `r`, on lines of its own or inside a new
/// `services.samba` block, put in at position `p`.
pub open spec fn inserted_at(s: Seq<char>, r: ShareRecord, p: int, w: Seq<char>) -> bool {
    0 <= p <= s.len() && (w == splice(s, p, p, render_share(r) + "\n"@) || w == splice(
        s,
        p,
        p,
        "\n"@ + render_share(r) + "\n"@,
    ) || w == splice(s, p, p, render_section(r) + "\n"@))
}

/// Adding a share changes no character of the text: the result is the text
/// with one piece, the share's entry or a new block holding it, put in at a
/// single place.
pub proof fn lemma_write_keeps_text(s: Seq<char>, r: ShareRecord)
    ensures
        write_result(s, r) is Ok ==> exists|p: int|
            #[trigger] inserted_at(s, r, p, write_result(s, r)->Ok_0),
{
    lemma_last_closing_bound(s, 0, None);
    let t = nix_tree(s);
    match settings_block_from(t, 0) {
        Some(c) => {
            let close = t.ends[c] - 1;
            if t.text == s && 0 <= t.starts[c] <= close && close < t.ends[c] <= s.len() && s[close]
                == '}' {
                lemma_line_start_bound(s, close);
                let q = line_start(s, close);
                let w = write_result(s, r)->Ok_0;
                if t.starts[c] < q && all_white(s.subrange(q, close)) {
                    assert(inserted_at(s, r, q, w));
                } else {
                    assert(inserted_at(s, r, close, w));
                }
            }
        },
        None => {
            if let Some(p) = last_closing_from(s, 0, None) {
                assert(inserted_at(s, r, p, write_result(s, r)->Ok_0));
            }
        },
    }
}

/// Reading depends on the text alone: the same text read twice gives the same
/// shares.
pub proof fn lemma_read_deterministic(a: Seq<char>, b: Seq<char>)
    requires
        a == b,
    ensures
        read_shares(a) == read_shares(b),
{
}

proof fn lemma_block_entry_range(t: Tree, c: int, old: Seq<char>, j: int)
    ensures
        match block_entry(t, c, old, j) {
            Some(e) => 0 <= e < t.kinds.len() && is_child(t, c, e) && attr_name(t, e) == Some(old),
            None => true,
        },
    decreases t.kinds.len() - j,
{
    if 0 <= j < t.kinds.len() && !(is_child(t, c, j) && t.kinds[j] == NodeKind::AttrpathValue
        && attr_name(t, j) == Some(old)) {
        lemma_block_entry_range(t, c, old, j + 1);
    }
}

/// Updating fails exactly when the `settings` block has no direct entry with
/// the key (or there is no such block), wherever the parsed tree holds all of
/// the text, as rnix's lossless trees do.
pub proof fn lemma_update_not_found(s: Seq<char>, r: ShareRecord, old: Seq<char>)
    requires
        nix_tree(s).text == s,
    ensures
        (update_result(s, r, old) is Err) <==> (settings_entry(nix_tree(s), old) is None),
        update_result(s, r, old) is Err ==> update_result(s, r, old)->Err_0 == share_not_found(old),
{
    crate::nix_syntax::lemma_tree_spans(crate::nix_syntax::nix_walk(s));
    let t = nix_tree(s);
    if let Some(c) = settings_block_from(t, 0) {
        lemma_block_entry_range(t, c, old, 0);
    }
}

/// Updating a share changes no character outside the replaced entry: the
/// result is the text with one span, the entry's, replaced by the share's
/// text.
pub proof fn lemma_update_keeps_text(s: Seq<char>, r: ShareRecord, old: Seq<char>)
    ensures
        update_result(s, r, old) is Ok ==> exists|e: int|
            settings_entry(nix_tree(s), old) == Some(e) && 0 <= nix_tree(s).starts[e]
                <= nix_tree(s).ends[e] <= s.len() && update_result(s, r, old)->Ok_0 == splice(
                s,
                nix_tree(s).starts[e],
                nix_tree(s).ends[e],
                trim(render_share(r)),
            ),
{
}

} // verus!
