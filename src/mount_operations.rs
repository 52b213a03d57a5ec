//! Mounting remote shares: checks on what is handed to the `mount` command,
//! the reading of the mount table, and the messages shown for failures.
use crate::remote_share_config::{
    RemoteRecord, RemoteSambaShareConfig,
};
use crate::share_config::{
    line_end, line_end_exec,
};
use crate::text::{
    char_is_whitespace, chars_of, count_char, count_char_exec, is_white_space, lemma_texts_push,
    same_chars, starts_with, starts_with_exec, string_of, sub_vec, texts, trim, trim_vec,
};
use vstd::prelude::*;
use vstd::string::*;

verus! {

/// A CIFS mount, live or configured.
pub struct MountedShare {
    /// The remote address, `//server/share`.
    pub source: String,
    /// The mount point.
    pub target: String,
    pub fstype: String,
    /// The mount options, joined by commas.
    pub options: String,
    pub is_mounted: bool,
}

/// The value of a [`MountedShare`].
pub struct MountedView {
    pub source: Seq<char>,
    pub target: Seq<char>,
    pub fstype: Seq<char>,
    pub options: Seq<char>,
    pub is_mounted: bool,
}

impl View for MountedShare {
    type V = MountedView;

    open spec fn view(&self) -> MountedView {
        MountedView {
            source: self.source@,
            target: self.target@,
            fstype: self.fstype@,
            options: self.options@,
            is_mounted: self.is_mounted,
        }
    }
}

pub open spec fn mounts_view(v: Seq<MountedShare>) -> Seq<MountedView> {
    v.map_values(|m: MountedShare| m@)
}

// ---------------------------------------------------------------------------
// Checks on the arguments of a mount
/// A character that a shell would read as a command separator or substitution.
pub open spec fn is_shell_special(c: char) -> bool {
    c == ';' || c == '&' || c == '|' || c == '`'
}

pub open spec fn has_shell_special(s: Seq<char>) -> bool {
    exists|i: int| 0 <= i < s.len() && is_shell_special(s[i])
}

fn has_shell_special_exec(s: &Vec<char>) -> (r: bool)
    ensures
        r == has_shell_special(s@),
{
    let mut i: usize = 0;
    while i < s.len()
        invariant
            i <= s@.len(),
            forall|j: int| 0 <= j < i ==> !is_shell_special(s@[j]),
        decreases s@.len() - i,
    {
        if s[i] == ';' || s[i] == '&' || s[i] == '|' || s[i] == '`' {
            return true;
        }
        i = i + 1;
    }
    false
}

/// Why a remote address is refused, if it is: it must start with `//`, hold
/// at least three slashes (a server and a share), and no shell separator.
pub open spec fn remote_url_error(url: Seq<char>) -> Option<Seq<char>> {
    if !starts_with(url, "//"@) {
        Some("Remote URL must start with '//' (e.g., //server/share)"@)
    } else if count_char(url, '/') < 3 {
        Some("Remote URL must include server and share name (e.g., //server/share)"@)
    } else if has_shell_special(url) {
        Some("Remote URL contains invalid characters"@)
    } else {
        None
    }
}

/// Why a mount point is refused, if it is: it must be absolute and hold no
/// shell separator.
pub open spec fn mount_point_error(path: Seq<char>) -> Option<Seq<char>> {
    if !starts_with(path, "/"@) {
        Some("Mount point must be an absolute path"@)
    } else if has_shell_special(path) {
        Some("Mount point path contains invalid characters"@)
    } else {
        None
    }
}

pub open spec fn check_view(r: Result<(), String>) -> Option<Seq<char>> {
    match r {
        Ok(()) => None,
        Err(e) => Some(e@),
    }
}

/// Accepts a remote address of the form `//server/share`.
pub fn validate_remote_url(url: &str) -> (r: Result<(), String>)
    ensures
        check_view(r) == remote_url_error(url@),
{
    let u = chars_of(url);
    if !starts_with_exec(&u, &chars_of("//")) {
        Err(String::from_str("Remote URL must start with '//' (e.g., //server/share)"))
    } else if count_char_exec(&u, '/') < 3 {
        Err(
            String::from_str(
                "Remote URL must include server and share name (e.g., //server/share)",
            ),
        )
    } else if has_shell_special_exec(&u) {
        Err(String::from_str("Remote URL contains invalid characters"))
    } else {
        Ok(())
    }
}

/// Accepts an absolute mount point.
pub fn validate_mount_point(path: &str) -> (r: Result<(), String>)
    ensures
        check_view(r) == mount_point_error(path@),
{
    let p = chars_of(path);
    if !starts_with_exec(&p, &chars_of("/")) {
        Err(String::from_str("Mount point must be an absolute path"))
    } else if has_shell_special_exec(&p) {
        Err(String::from_str("Mount point path contains invalid characters"))
    } else {
        Ok(())
    }
}

// ---------------------------------------------------------------------------
// Failure messages
/// What `str::to_lowercase` returns for `s`.
pub uninterp spec fn lowercase_of(s: Seq<char>) -> Seq<char>;

/// Relies on `str::to_lowercase`: the lower-case form of `s`, which depends on
/// its characters alone.
#[verifier::external_body]
fn to_lowercase(s: &str) -> (r: String)
    ensures
        r@ == lowercase_of(s@),
{
    s.to_lowercase()
}

/// The message for a failed mount, from the command's error output `stderr`
/// and its lower-case form `lower`: the first category whose words `lower`
/// holds, or else the trimmed output after a generic label.
pub open spec fn mount_error_message(lower: Seq<char>, stderr: Seq<char>) -> Seq<char> {
    if crate::text::contains(lower, "permission denied"@) || crate::text::contains(
        lower,
        "access denied"@,
    ) {
        "Permission denied. Check your credentials or run with sudo."@
    } else if crate::text::contains(lower, "connection refused"@) || crate::text::contains(
        lower,
        "could not resolve"@,
    ) {
        "Connection refused. Server may be offline or unreachable."@
    } else if crate::text::contains(lower, "already mounted"@) || crate::text::contains(
        lower,
        "busy"@,
    ) {
        "Mount point is already in use or mounted."@
    } else if crate::text::contains(lower, "no such file or directory"@) {
        "Server or share not found. Check the remote URL."@
    } else if crate::text::contains(lower, "invalid argument"@) {
        "Invalid mount options. Check your configuration."@
    } else if crate::text::contains(lower, "host is down"@) {
        "Host is unreachable. Check network connectivity."@
    } else {
        "Mount failed: "@ + trim(stderr)
    }
}

/// The message for a failed unmount, as [`mount_error_message`] does for a mount.
pub open spec fn umount_error_message(lower: Seq<char>, stderr: Seq<char>) -> Seq<char> {
    if crate::text::contains(lower, "not mounted"@) {
        "The specified path is not currently mounted."@
    } else if crate::text::contains(lower, "busy"@) || crate::text::contains(
        lower,
        "target is busy"@,
    ) {
        "Mount point is busy. Close any programs using files from this share."@
    } else if crate::text::contains(lower, "permission denied"@) {
        "Permission denied. You may need to run with sudo."@
    } else {
        "Unmount failed: "@ + trim(stderr)
    }
}

fn holds(s: &Vec<char>, p: &str) -> (r: bool)
    ensures
        r == crate::text::contains(s@, p@),
{
    crate::text::contains_exec(s, &chars_of(p))
}

fn trimmed_after(label: &str, stderr: &str) -> (r: String)
    ensures
        r@ == label@ + trim(stderr@),
{
    let mut m = String::from_str(label);
    m.append(string_of(&trim_vec(&chars_of(stderr))).as_str());
    m
}

/// The message for a failed mount, given the error output and its lower-case form.
pub fn classify_mount_error(lower: &str, stderr: &str) -> (r: String)
    ensures
        r@ == mount_error_message(lower@, stderr@),
{
    let l = chars_of(lower);
    if holds(&l, "permission denied") || holds(&l, "access denied") {
        String::from_str("Permission denied. Check your credentials or run with sudo.")
    } else if holds(&l, "connection refused") || holds(&l, "could not resolve") {
        String::from_str("Connection refused. Server may be offline or unreachable.")
    } else if holds(&l, "already mounted") || holds(&l, "busy") {
        String::from_str("Mount point is already in use or mounted.")
    } else if holds(&l, "no such file or directory") {
        String::from_str("Server or share not found. Check the remote URL.")
    } else if holds(&l, "invalid argument") {
        String::from_str("Invalid mount options. Check your configuration.")
    } else if holds(&l, "host is down") {
        String::from_str("Host is unreachable. Check network connectivity.")
    } else {
        trimmed_after("Mount failed: ", stderr)
    }
}

/// The message for a failed unmount, given the error output and its lower-case form.
pub fn classify_umount_error(lower: &str, stderr: &str) -> (r: String)
    ensures
        r@ == umount_error_message(lower@, stderr@),
{
    let l = chars_of(lower);
    if holds(&l, "not mounted") {
        String::from_str("The specified path is not currently mounted.")
    } else if holds(&l, "busy") || holds(&l, "target is busy") {
        String::from_str("Mount point is busy. Close any programs using files from this share.")
    } else if holds(&l, "permission denied") {
        String::from_str("Permission denied. You may need to run with sudo.")
    } else {
        trimmed_after("Unmount failed: ", stderr)
    }
}

/// The message for a mount that failed with error output `stderr`; categories
/// are matched without regard to case.
pub fn parse_mount_error(stderr: &str) -> (r: String)
    ensures
        r@ == mount_error_message(lowercase_of(stderr@), stderr@),
{
    let lower = to_lowercase(stderr);
    classify_mount_error(lower.as_str(), stderr)
}

/// The message for an unmount that failed with error output `stderr`.
pub fn parse_umount_error(stderr: &str) -> (r: String)
    ensures
        r@ == umount_error_message(lowercase_of(stderr@), stderr@),
{
    let lower = to_lowercase(stderr);
    classify_umount_error(lower.as_str(), stderr)
}

// ---------------------------------------------------------------------------
// The mount table
/// The white-space separated words of `s[i..]`, after the finished words `acc`
/// and the word `cur` that is being read.
pub open spec fn words_from(s: Seq<char>, i: int, acc: Seq<Seq<char>>, cur: Seq<char>) -> Seq<
    Seq<char>,
>
    decreases s.len() - i,
{
    if i < 0 || i >= s.len() {
        if cur.len() > 0 {
            acc.push(cur)
        } else {
            acc
        }
    } else if is_white_space(s[i]) {
        words_from(
            s,
            i + 1,
            if cur.len() > 0 {
                acc.push(cur)
            } else {
                acc
            },
            Seq::empty(),
        )
    } else {
        words_from(s, i + 1, acc, cur.push(s[i]))
    }
}

/// The white-space separated words of `s`.
pub open spec fn words(s: Seq<char>) -> Seq<Seq<char>> {
    words_from(s, 0, Seq::empty(), Seq::empty())
}

fn words_exec(s: &Vec<char>) -> (r: Vec<Vec<char>>)
    ensures
        texts(r@) == words(s@),
{
    let mut acc: Vec<Vec<char>> = Vec::new();
    let mut cur: Vec<char> = Vec::new();
    let mut i: usize = 0;
    assert(texts(acc@) =~= Seq::<Seq<char>>::empty());
    assert(cur@ =~= Seq::<char>::empty());
    while i < s.len()
        invariant
            i <= s@.len(),
            words(s@) == words_from(s@, i as int, texts(acc@), cur@),
        decreases s@.len() - i,
    {
        if char_is_whitespace(s[i]) {
            if cur.len() > 0 {
                proof {
                    lemma_texts_push(acc@, cur);
                }
                acc.push(cur);
            }
            cur = Vec::new();
            assert(cur@ =~= Seq::<char>::empty());
        } else {
            cur.push(s[i]);
        }
        i = i + 1;
    }
    if cur.len() > 0 {
        proof {
            lemma_texts_push(acc@, cur);
        }
        acc.push(cur);
    }
    acc
}

/// The live CIFS mount that a line of the mount table describes, if it does:
/// its fields are the source, the target, the type and the options.
pub open spec fn table_row(line: Seq<char>) -> Option<MountedView> {
    let w = words(line);
    if w.len() >= 4 && w[2] == "cifs"@ {
        Some(
            MountedView { source: w[0], target: w[1], fstype: w[2], options: w[3], is_mounted: true },
        )
    } else {
        None
    }
}

/// The live CIFS mounts of the lines of `s` from the one starting at `pos`
/// on, after `acc`.
pub open spec fn table_from(s: Seq<char>, pos: int, acc: Seq<MountedView>) -> Seq<MountedView>
    decreases s.len() + 1 - pos,
{
    if pos < 0 || pos > s.len() {
        acc
    } else {
        let e = line_end(s, pos);
        if e < pos || e > s.len() {
            acc
        } else {
            table_from(
                s,
                e + 1,
                match table_row(s.subrange(pos, e)) {
                    Some(m) => acc.push(m),
                    None => acc,
                },
            )
        }
    }
}

/// The live CIFS mounts that a mount table lists, one line each.
pub open spec fn table_mounts(s: Seq<char>) -> Seq<MountedView> {
    table_from(s, 0, Seq::empty())
}

/// The CIFS mounts that the system mount table `content` lists, in its order.
pub fn list_cifs_mounts_proc(content: &str) -> (r: Vec<MountedShare>)
    ensures
        mounts_view(r@) == table_mounts(content@),
{
    let s = chars_of(content);
    let cifs = chars_of("cifs");
    let mut out: Vec<MountedShare> = Vec::new();
    assert(mounts_view(out@) =~= Seq::<MountedView>::empty());
    let mut pos: usize = 0;
    while pos <= s.len()
        invariant
            s@ == content@,
            cifs@ == "cifs"@,
            pos <= s@.len() + 1,
            table_mounts(s@) == table_from(s@, pos as int, mounts_view(out@)),
        decreases s@.len() + 1 - pos,
    {
        let e = line_end_exec(&s, pos);
        let w = words_exec(&sub_vec(&s, pos, e));
        let ghost before = mounts_view(out@);
        if w.len() >= 4 && same_chars(&w[2], &cifs) {
            let m = MountedShare {
                source: string_of(&w[0]),
                target: string_of(&w[1]),
                fstype: string_of(&w[2]),
                options: string_of(&w[3]),
                is_mounted: true,
            };
            out.push(m);
            assert(mounts_view(out@) =~= before.push(m@));
        }
        assert(table_from(s@, pos as int, before) == table_from(s@, e + 1, mounts_view(out@)));
        if e == s.len() {
            assert(table_from(s@, e + 1, mounts_view(out@)) == mounts_view(out@));
            return out;
        }
        pos = e + 1;
    }
    out
}

pub open spec fn mounts_result_view(r: Result<Vec<MountedShare>, String>) -> Result<
    Seq<MountedView>,
    Seq<char>,
> {
    match r {
        Ok(v) => Ok(mounts_view(v@)),
        Err(e) => Err(e@),
    }
}

/// The live CIFS mounts: those of the structured query where it answered,
/// else those of the system mount table where it could be read.
pub fn list_cifs_mounts(
    findmnt: Result<Vec<MountedShare>, String>,
    mount_table: Result<String, String>,
) -> (r: Result<Vec<MountedShare>, String>)
    ensures
        mounts_result_view(r) == match findmnt {
            Ok(v) => Ok(mounts_view(v@)),
            Err(_) => match mount_table {
                Ok(t) => Ok(table_mounts(t@)),
                Err(e) => Err(e@),
            },
        },
{
    match findmnt {
        Ok(v) => Ok(v),
        Err(_) => match mount_table {
            Ok(t) => Ok(list_cifs_mounts_proc(t.as_str())),
            Err(e) => Err(e),
        },
    }
}

/// Whether two paths are equal as `std::path::Path` compares them.
pub uninterp spec fn same_path(a: Seq<char>, b: Seq<char>) -> bool;

/// Relies on `Path`'s `==`: the two paths have the same components, which
/// depends on their text alone; a path equals itself.
#[verifier::external_body]
fn paths_equal(a: &str, b: &str) -> (r: bool)
    ensures
        r == same_path(a@, b@),
        a@ == b@ ==> r,
{
    std::path::Path::new(a) == std::path::Path::new(b)
}

/// `mount_point` is the target of one of the live `mounts`.
pub open spec fn mounted_at(mounts: Result<Vec<MountedShare>, String>, mount_point: Seq<char>) -> bool {
    &&& mounts is Ok
    &&& exists|i: int|
        0 <= i < mounts->Ok_0@.len() && same_path(mounts->Ok_0@[i].target@, mount_point)
}

/// Whether `mount_point` is the target of one of the live `mounts`; false
/// where they could not be listed.
pub fn is_mounted(mount_point: &str, mounts: &Result<Vec<MountedShare>, String>) -> (r: bool)
    ensures
        r == mounted_at(*mounts, mount_point@),
{
    match mounts {
        Ok(v) => {
            assert(*mounts == Ok::<Vec<MountedShare>, String>(*v));
            let mut i: usize = 0;
            while i < v.len()
                invariant
                    *mounts == Ok::<Vec<MountedShare>, String>(*v),
                    i <= v@.len(),
                    forall|j: int| 0 <= j < i ==> !same_path(v@[j].target@, mount_point@),
                decreases v@.len() - i,
            {
                if paths_equal(v[i].target.as_str(), mount_point) {
                    assert(same_path(v@[i as int].target@, mount_point@));
                    assert(mounts->Ok_0@ == v@);
                    assert(same_path(mounts->Ok_0@[i as int].target@, mount_point@));
                    assert(mounted_at(*mounts, mount_point@));
                    return true;
                }
                i = i + 1;
            }
            false
        },
        Err(_) => false,
    }
}

// ---------------------------------------------------------------------------
// Configured and live shares together
/// The last live mount, among the first `n`, whose target is `name`.
pub open spec fn last_with_target(m: Seq<MountedView>, name: Seq<char>, n: int) -> Option<int>
    decreases n,
{
    if n <= 0 || n > m.len() {
        None
    } else if m[n - 1].target == name {
        Some(n - 1)
    } else {
        last_with_target(m, name, n - 1)
    }
}

/// The options of a configured share that is not mounted.
pub open spec fn configured_options(c: RemoteRecord) -> Seq<char> {
    "credentials="@ + c.option_credentials + ",uid="@ + c.force_user + ",gid="@ + c.force_group
}

/// A configured share, marked mounted where a live mount has its mount point
/// as target; then it takes the options of the last such mount.
pub open spec fn configured_entry(c: RemoteRecord, m: Seq<MountedView>) -> MountedView {
    let live = last_with_target(m, c.name, m.len() as int);
    MountedView {
        source: c.remote_path,
        target: c.name,
        fstype: c.fs_type,
        options: match live {
            Some(i) => m[i].options,
            None => configured_options(c),
        },
        is_mounted: live is Some,
    }
}

pub open spec fn has_target(acc: Seq<MountedView>, t: Seq<char>) -> bool {
    exists|i: int| 0 <= i < acc.len() && acc[i].target == t
}

/// `acc` with the live mounts from the `j`-th on appended, each unless its
/// target is already listed.
pub open spec fn add_unlisted(acc: Seq<MountedView>, m: Seq<MountedView>, j: int) -> Seq<
    MountedView,
>
    decreases m.len() - j,
{
    if j < 0 || j >= m.len() {
        acc
    } else {
        add_unlisted(
            if has_target(acc, m[j].target) {
                acc
            } else {
                acc.push(m[j])
            },
            m,
            j + 1,
        )
    }
}

/// Every configured share once, in order, marked by the live table; then each
/// live mount whose target is not yet listed.
pub open spec fn reconcile(cs: Seq<RemoteRecord>, m: Seq<MountedView>) -> Seq<MountedView> {
    add_unlisted(cs.map_values(|c: RemoteRecord| configured_entry(c, m)), m, 0)
}

fn copy_mount(m: &MountedShare) -> (r: MountedShare)
    ensures
        r@ == m@,
{
    MountedShare {
        source: m.source.clone(),
        target: m.target.clone(),
        fstype: m.fstype.clone(),
        options: m.options.clone(),
        is_mounted: m.is_mounted,
    }
}

fn configured_entry_exec(c: &RemoteSambaShareConfig, m: &Vec<MountedShare>) -> (r: MountedShare)
    ensures
        r@ == configured_entry(c@, mounts_view(m@)),
{
    let ghost mv = mounts_view(m@);
    let mut n: usize = m.len();
    while n > 0 && m[n - 1].target != c.name
        invariant
            n <= m@.len(),
            mv == mounts_view(m@),
            last_with_target(mv, c.name@, m@.len() as int) == last_with_target(
                mv,
                c.name@,
                n as int,
            ),
        decreases n,
    {
        n = n - 1;
    }
    let options = if n > 0 {
        m[n - 1].options.clone()
    } else {
        let mut o = String::from_str("credentials=");
        o.append(c.option_credentials.as_str());
        o.append(",uid=");
        o.append(c.force_user.as_str());
        o.append(",gid=");
        o.append(c.force_group.as_str());
        o
    };
    MountedShare {
        source: c.remote_path.clone(),
        target: c.name.clone(),
        fstype: c.fs_type.clone(),
        options,
        is_mounted: n > 0,
    }
}

/// Every configured share once, in order, with `is_mounted` set where a live
/// mount has its mount point as target (and then that mount's options, else
/// options made from its credentials, uid and gid); then every live mount
/// whose target no earlier entry has.
pub fn list_all_shares(configured: Vec<RemoteSambaShareConfig>, mounted: Vec<MountedShare>) -> (r:
    Vec<MountedShare>)
    ensures
        mounts_view(r@) == reconcile(
            configured@.map_values(|c: RemoteSambaShareConfig| c@),
            mounts_view(mounted@),
        ),
{
    let ghost mv = mounts_view(mounted@);
    let ghost cs = configured@.map_values(|c: RemoteSambaShareConfig| c@);
    let mut out: Vec<MountedShare> = Vec::new();
    let mut i: usize = 0;
    while i < configured.len()
        invariant
            i <= configured@.len(),
            mv == mounts_view(mounted@),
            cs == configured@.map_values(|c: RemoteSambaShareConfig| c@),
            mounts_view(out@) == cs.subrange(0, i as int).map_values(
                |c: RemoteRecord| configured_entry(c, mv),
            ),
        decreases configured@.len() - i,
    {
        let e = configured_entry_exec(&configured[i], &mounted);
        assert(cs[i as int] == configured@[i as int]@);
        let ghost prev = mounts_view(out@);
        out.push(e);
        assert(mounts_view(out@) =~= prev.push(e@));
        assert(mounts_view(out@) =~= cs.subrange(0, i + 1).map_values(
            |c: RemoteRecord| configured_entry(c, mv),
        ));
        i = i + 1;
    }
    assert(cs.subrange(0, i as int) =~= cs);
    let ghost start = mounts_view(out@);
    let mut j: usize = 0;
    while j < mounted.len()
        invariant
            j <= mounted@.len(),
            mv == mounts_view(mounted@),
            add_unlisted(start, mv, 0) == add_unlisted(mounts_view(out@), mv, j as int),
        decreases mounted@.len() - j,
    {
        let mut listed = false;
        let mut k: usize = 0;
        while k < out.len()
            invariant
                k <= out@.len(),
                mv == mounts_view(mounted@),
                j < mounted@.len(),
                listed == exists|x: int| 0 <= x < k && out@[x].target@ == mounted@[j as int].target@,
            decreases out@.len() - k,
        {
            if out[k].target == mounted[j].target {
                listed = true;
            }
            k = k + 1;
        }
        let ghost before = mounts_view(out@);
        assert(forall|x: int| 0 <= x < out@.len() ==> before[x] == out@[x]@);
        assert(mv[j as int] == mounted@[j as int]@);
        if listed {
            let ghost x = choose|x: int| 0 <= x < out@.len() && out@[x].target@ == mounted@[j as int].target@;
            assert(before[x].target == mv[j as int].target);
        }
        assert(listed == has_target(before, mv[j as int].target));
        if !listed {
            out.push(copy_mount(&mounted[j]));
            assert(mounts_view(out@) =~= before.push(mv[j as int]));
        }
        j = j + 1;
    }
    out
}

// ---------------------------------------------------------------------------
// Mounting
/// Options for mounting a CIFS share.
pub struct MountOptions {
    /// The owner of the mounted files; the caller's own where unset.
    pub uid: Option<u32>,
    /// The group of the mounted files; the caller's own where unset.
    pub gid: Option<u32>,
    /// Further `mount` options.
    pub additional_opts: Vec<String>,
}

/// Relies on `users::get_current_uid`: the real user id of this process.
#[verifier::external_body]
fn current_uid() -> (r: u32) {
    users::get_current_uid()
}

/// Relies on `users::get_current_gid`: the real group id of this process.
#[verifier::external_body]
fn current_gid() -> (r: u32) {
    users::get_current_gid()
}

pub open spec fn default_opts() -> Seq<Seq<char>> {
    seq!["x-systemd.automount"@, "noauto"@, "x-systemd.idle-timeout=300"@]
}

impl Default for MountOptions {
    /// The caller's own user and group, mounted on first access and
    /// unmounted after five idle minutes.
    fn default() -> (r: Self)
        ensures
            r.uid is Some,
            r.gid is Some,
            texts_of(r.additional_opts@) == default_opts(),
    {
        let mut additional_opts: Vec<String> = Vec::new();
        additional_opts.push(String::from_str("x-systemd.automount"));
        additional_opts.push(String::from_str("noauto"));
        additional_opts.push(String::from_str("x-systemd.idle-timeout=300"));
        assert(texts_of(additional_opts@) =~= default_opts());
        MountOptions { uid: Some(current_uid()), gid: Some(current_gid()), additional_opts }
    }
}

pub open spec fn texts_of(v: Seq<String>) -> Seq<Seq<char>> {
    v.map_values(|s: String| s@)
}

pub open spec fn digit(d: nat) -> char {
    if d == 0 {
        '0'
    } else if d == 1 {
        '1'
    } else if d == 2 {
        '2'
    } else if d == 3 {
        '3'
    } else if d == 4 {
        '4'
    } else if d == 5 {
        '5'
    } else if d == 6 {
        '6'
    } else if d == 7 {
        '7'
    } else if d == 8 {
        '8'
    } else {
        '9'
    }
}

/// The decimal digits of `n`.
pub open spec fn decimal(n: nat) -> Seq<char>
    decreases n,
{
    if n < 10 {
        seq![digit(n)]
    } else {
        decimal(n / 10).push(digit(n % 10))
    }
}

fn digit_exec(d: u32) -> (r: char)
    requires
        d < 10,
    ensures
        r == digit(d as nat),
{
    if d == 0 {
        '0'
    } else if d == 1 {
        '1'
    } else if d == 2 {
        '2'
    } else if d == 3 {
        '3'
    } else if d == 4 {
        '4'
    } else if d == 5 {
        '5'
    } else if d == 6 {
        '6'
    } else if d == 7 {
        '7'
    } else if d == 8 {
        '8'
    } else {
        '9'
    }
}

fn decimal_exec(n: u64) -> (r: Vec<char>)
    ensures
        r@ == decimal(n as nat),
    decreases n,
{
    if n < 10 {
        let mut v: Vec<char> = Vec::new();
        v.push(digit_exec(n as u32));
        assert(v@ =~= seq![digit(n as nat)]);
        v
    } else {
        let mut v = decimal_exec(n / 10);
        v.push(digit_exec((n % 10) as u32));
        v
    }
}

/// Where a mount stands.
#[derive(PartialEq, Eq, Structural, Clone, Copy)]
pub enum MountStage {
    /// Nothing done yet.
    Start,
    /// Waiting to learn whether the mount point is already mounted.
    Checking,
    /// Waiting for the mount point's directory.
    Preparing,
    /// Waiting for the credentials file.
    WritingCredentials,
    /// Waiting for the `mount` command.
    Mounting,
    /// Waiting for the credentials file to be removed.
    Removing,
    /// Finished.
    Done,
}

/// What the caller reports after carrying out a [`MountAction`].
pub enum MountEvent {
    /// The mount is asked for.
    Begin,
    /// Whether the mount point is already mounted.
    MountedChecked(bool),
    /// The mount point's directory exists, or could not be made.
    DirectoryReady(Result<(), String>),
    /// The credentials file at `path` was written with owner-only access, or
    /// writing it failed; a file may stand at `path` either way.
    CredentialsWritten { path: String, result: Result<(), String> },
    /// The `mount` command ran, with this outcome and error output.
    MountRan { success: bool, stderr: String },
    /// The `mount` command could not be started.
    MountNotRun(String),
    /// The credentials file is gone.
    CredentialsRemoved,
}

/// What the caller is to do next.
pub enum MountAction {
    /// Find out whether the mount point is already mounted.
    CheckMounted,
    /// Make the mount point's directory where it is missing.
    CreateDirectory,
    /// Write a fresh credentials file, readable by its owner alone, with this content.
    WriteCredentials { content: String },
    /// Run `mount` with these arguments.
    RunMount { args: Vec<String> },
    /// Remove the credentials file at `path`.
    RemoveCredentials { path: String },
    /// The mount is over, with this outcome.
    Finish(Result<(), String>),
}

pub ghost enum EventV {
    Begin,
    MountedChecked(bool),
    DirectoryReady(Result<(), Seq<char>>),
    CredentialsWritten { path: Seq<char>, result: Result<(), Seq<char>> },
    MountRan { success: bool, stderr: Seq<char> },
    MountNotRun(Seq<char>),
    CredentialsRemoved,
}

pub ghost enum ActionV {
    CheckMounted,
    CreateDirectory,
    WriteCredentials { content: Seq<char> },
    RunMount { args: Seq<Seq<char>> },
    RemoveCredentials { path: Seq<char> },
    Finish(Result<(), Seq<char>>),
}

pub open spec fn unit_result_view(r: Result<(), String>) -> Result<(), Seq<char>> {
    match r {
        Ok(()) => Ok(()),
        Err(e) => Err(e@),
    }
}

impl View for MountEvent {
    type V = EventV;

    open spec fn view(&self) -> EventV {
        match self {
            MountEvent::Begin => EventV::Begin,
            MountEvent::MountedChecked(b) => EventV::MountedChecked(*b),
            MountEvent::DirectoryReady(r) => EventV::DirectoryReady(unit_result_view(*r)),
            MountEvent::CredentialsWritten { path, result } => EventV::CredentialsWritten {
                path: path@,
                result: unit_result_view(*result),
            },
            MountEvent::MountRan { success, stderr } => EventV::MountRan {
                success: *success,
                stderr: stderr@,
            },
            MountEvent::MountNotRun(e) => EventV::MountNotRun(e@),
            MountEvent::CredentialsRemoved => EventV::CredentialsRemoved,
        }
    }
}

impl View for MountAction {
    type V = ActionV;

    open spec fn view(&self) -> ActionV {
        match self {
            MountAction::CheckMounted => ActionV::CheckMounted,
            MountAction::CreateDirectory => ActionV::CreateDirectory,
            MountAction::WriteCredentials { content } => ActionV::WriteCredentials {
                content: content@,
            },
            MountAction::RunMount { args } => ActionV::RunMount { args: texts_of(args@) },
            MountAction::RemoveCredentials { path } => ActionV::RemoveCredentials { path: path@ },
            MountAction::Finish(r) => ActionV::Finish(unit_result_view(*r)),
        }
    }
}

/// One mount of a remote share, from the checks to the removal of its
/// credentials file. The caller carries out each [`MountAction`] and reports
/// back with a [`MountEvent`].
pub struct MountSession {
    pub remote_url: String,
    pub mount_point: String,
    pub username: String,
    pub password: String,
    pub uid: u32,
    pub gid: u32,
    pub additional_opts: Vec<String>,
    pub stage: MountStage,
    /// The credentials file, from the moment it may exist until it is removed.
    pub credentials: Option<String>,
    pub outcome: Result<(), String>,
}

pub ghost struct SessionV {
    pub remote_url: Seq<char>,
    pub mount_point: Seq<char>,
    pub username: Seq<char>,
    pub password: Seq<char>,
    pub uid: nat,
    pub gid: nat,
    pub additional_opts: Seq<Seq<char>>,
    pub stage: MountStage,
    pub credentials: Option<Seq<char>>,
    pub outcome: Result<(), Seq<char>>,
}

impl View for MountSession {
    type V = SessionV;

    open spec fn view(&self) -> SessionV {
        SessionV {
            remote_url: self.remote_url@,
            mount_point: self.mount_point@,
            username: self.username@,
            password: self.password@,
            uid: self.uid as nat,
            gid: self.gid as nat,
            additional_opts: texts_of(self.additional_opts@),
            stage: self.stage,
            credentials: match self.credentials {
                Some(p) => Some(p@),
                None => None,
            },
            outcome: unit_result_view(self.outcome),
        }
    }
}

/// The credentials file's content.
pub open spec fn credentials_content(s: SessionV) -> Seq<char> {
    "username="@ + s.username + "\npassword="@ + s.password + "\n"@
}

/// The options handed to `mount`: the credentials file, the owner and group,
/// then the further options.
pub open spec fn mount_option_list(s: SessionV, path: Seq<char>) -> Seq<Seq<char>> {
    seq!["credentials="@ + path, "uid="@ + decimal(s.uid), "gid="@ + decimal(s.gid)]
        + s.additional_opts
}

/// The arguments of `mount`: type, source, target, and the joined options.
pub open spec fn mount_args(s: SessionV, path: Seq<char>) -> Seq<Seq<char>> {
    seq![
        "-t"@,
        "cifs"@,
        s.remote_url,
        s.mount_point,
        "-o"@,
        crate::text::join(mount_option_list(s, path), ","@),
    ]
}

pub open spec fn cred_path(s: SessionV) -> Seq<char> {
    match s.credentials {
        Some(p) => p,
        None => Seq::empty(),
    }
}

/// What a session asks for while it waits in its stage.
pub open spec fn pending(s: SessionV) -> ActionV {
    match s.stage {
        MountStage::Start => ActionV::CheckMounted,
        MountStage::Checking => ActionV::CheckMounted,
        MountStage::Preparing => ActionV::CreateDirectory,
        MountStage::WritingCredentials => ActionV::WriteCredentials {
            content: credentials_content(s),
        },
        MountStage::Mounting => ActionV::RunMount { args: mount_args(s, cred_path(s)) },
        MountStage::Removing => ActionV::RemoveCredentials { path: cred_path(s) },
        MountStage::Done => ActionV::Finish(s.outcome),
    }
}

pub open spec fn finished(s: SessionV, outcome: Result<(), Seq<char>>) -> (SessionV, ActionV) {
    (SessionV { stage: MountStage::Done, outcome, ..s }, ActionV::Finish(outcome))
}

/// The next state and action of a session on an event. The remote address
/// and the mount point are checked first, whatever the event; a mount point
/// that is mounted already ends the session; once the credentials file may
/// exist, every way on passes through its removal.
pub open spec fn transition(s: SessionV, ev: EventV) -> (SessionV, ActionV) {
    match s.stage {
        MountStage::Start => match remote_url_error(s.remote_url) {
            Some(e) => finished(s, Err(e)),
            None => match mount_point_error(s.mount_point) {
                Some(e) => finished(s, Err(e)),
                None => (SessionV { stage: MountStage::Checking, ..s }, ActionV::CheckMounted),
            },
        },
        MountStage::Checking => match ev {
            EventV::MountedChecked(true) => finished(
                s,
                Err("Mount point "@ + s.mount_point + " is already mounted"@),
            ),
            EventV::MountedChecked(false) => (
                SessionV { stage: MountStage::Preparing, ..s },
                ActionV::CreateDirectory,
            ),
            _ => (s, pending(s)),
        },
        MountStage::Preparing => match ev {
            EventV::DirectoryReady(Ok(())) => (
                SessionV { stage: MountStage::WritingCredentials, ..s },
                ActionV::WriteCredentials { content: credentials_content(s) },
            ),
            EventV::DirectoryReady(Err(e)) => finished(
                s,
                Err("Failed to create mount point directory: "@ + e),
            ),
            _ => (s, pending(s)),
        },
        MountStage::WritingCredentials => match ev {
            EventV::CredentialsWritten { path, result: Ok(()) } => (
                SessionV { stage: MountStage::Mounting, credentials: Some(path), ..s },
                ActionV::RunMount { args: mount_args(s, path) },
            ),
            EventV::CredentialsWritten { path, result: Err(e) } => (
                SessionV {
                    stage: MountStage::Removing,
                    credentials: Some(path),
                    outcome: Err(e),
                    ..s
                },
                ActionV::RemoveCredentials { path },
            ),
            _ => (s, pending(s)),
        },
        MountStage::Mounting => {
            let removing = |outcome: Result<(), Seq<char>>|
                (
                    SessionV { stage: MountStage::Removing, outcome, ..s },
                    ActionV::RemoveCredentials { path: cred_path(s) },
                );
            match ev {
                EventV::MountRan { success: true, stderr: _ } => removing(Ok(())),
                EventV::MountRan { success: false, stderr } => removing(
                    Err(mount_error_message(lowercase_of(stderr), stderr)),
                ),
                EventV::MountNotRun(e) => removing(Err("Failed to execute mount command: "@ + e)),
                _ => (s, pending(s)),
            }
        },
        MountStage::Removing => match ev {
            EventV::CredentialsRemoved => (
                SessionV { stage: MountStage::Done, credentials: None, ..s },
                ActionV::Finish(s.outcome),
            ),
            _ => (s, pending(s)),
        },
        MountStage::Done => (s, pending(s)),
    }
}

/// The session holds a credentials file exactly while it mounts or removes
/// the file, and it got past the checks before it went on.
pub open spec fn session_wf(s: SessionV) -> bool {
    &&& (s.credentials is Some <==> (s.stage == MountStage::Mounting || s.stage
        == MountStage::Removing))
    &&& (s.stage != MountStage::Start && s.stage != MountStage::Done) ==> (remote_url_error(
        s.remote_url,
    ) is None && mount_point_error(s.mount_point) is None)
}

/// A session never asks to run `mount` before the remote address and the
/// mount point have passed their checks.
pub proof fn lemma_mount_runs_only_when_valid(s: SessionV, ev: EventV)
    requires
        session_wf(s),
    ensures
        session_wf(transition(s, ev).0),
        transition(s, ev).1 is RunMount ==> remote_url_error(s.remote_url) is None
            && mount_point_error(s.mount_point) is None,
{
}

/// A session finishes only once it holds no credentials file, and it lets go
/// of one only when told that the file is removed.
pub proof fn lemma_credentials_removed_before_finish(s: SessionV, ev: EventV)
    requires
        session_wf(s),
    ensures
        transition(s, ev).1 is Finish ==> transition(s, ev).0.credentials is None,
        s.credentials is Some && transition(s, ev).0.credentials is None ==> ev
            is CredentialsRemoved,
{
}

fn copy_unit_result(r: &Result<(), String>) -> (c: Result<(), String>)
    ensures
        unit_result_view(c) == unit_result_view(*r),
{
    match r {
        Ok(()) => Ok(()),
        Err(e) => Err(e.clone()),
    }
}

impl MountSession {
    /// A session that mounts `remote_url` at `mount_point` as `username`; the
    /// files belong to the user and group of `options`, or else to
    /// `current_uid` and `current_gid`.
    pub fn new(
        remote_url: String,
        mount_point: String,
        username: String,
        password: String,
        options: MountOptions,
        current_uid: u32,
        current_gid: u32,
    ) -> (r: Self)
        ensures
            r@ == (SessionV {
                remote_url: remote_url@,
                mount_point: mount_point@,
                username: username@,
                password: password@,
                uid: match options.uid {
                    Some(u) => u as nat,
                    None => current_uid as nat,
                },
                gid: match options.gid {
                    Some(g) => g as nat,
                    None => current_gid as nat,
                },
                additional_opts: texts_of(options.additional_opts@),
                stage: MountStage::Start,
                credentials: None,
                outcome: Ok(()),
            }),
            session_wf(r@),
    {
        MountSession {
            remote_url,
            mount_point,
            username,
            password,
            uid: match options.uid {
                Some(u) => u,
                None => current_uid,
            },
            gid: match options.gid {
                Some(g) => g,
                None => current_gid,
            },
            additional_opts: options.additional_opts,
            stage: MountStage::Start,
            credentials: None,
            outcome: Ok(()),
        }
    }

    fn credentials_content_exec(&self) -> (r: String)
        ensures
            r@ == credentials_content(self@),
    {
        let mut c = String::from_str("username=");
        c.append(self.username.as_str());
        c.append("\npassword=");
        c.append(self.password.as_str());
        c.append("\n");
        c
    }

    fn mount_args_exec(&self, path: &String) -> (r: Vec<String>)
        ensures
            texts_of(r@) == mount_args(self@, path@),
    {
        let mut opts: Vec<Vec<char>> = Vec::new();
        let mut cred = chars_of("credentials=");
        crate::text::append_chars(&mut cred, &chars_of(path.as_str()));
        opts.push(cred);
        let mut uid = chars_of("uid=");
        crate::text::append_chars(&mut uid, &decimal_exec(self.uid as u64));
        opts.push(uid);
        let mut gid = chars_of("gid=");
        crate::text::append_chars(&mut gid, &decimal_exec(self.gid as u64));
        opts.push(gid);
        let mut i: usize = 0;
        assert(texts(opts@) =~= mount_option_list(self@, path@).subrange(0, 3));
        while i < self.additional_opts.len()
            invariant
                i <= self.additional_opts@.len(),
                texts(opts@) == mount_option_list(self@, path@).subrange(0, 3 + i),
            decreases self.additional_opts@.len() - i,
        {
            let o = chars_of(self.additional_opts[i].as_str());
            proof {
                lemma_texts_push(opts@, o);
            }
            opts.push(o);
            i = i + 1;
            assert(texts(opts@) =~= mount_option_list(self@, path@).subrange(0, 3 + i));
        }
        assert(mount_option_list(self@, path@).subrange(0, 3 + i) =~= mount_option_list(
            self@,
            path@,
        ));
        let joined = crate::text::join_chars(&opts, &chars_of(","));
        let mut args: Vec<String> = Vec::new();
        args.push(String::from_str("-t"));
        args.push(String::from_str("cifs"));
        args.push(self.remote_url.clone());
        args.push(self.mount_point.clone());
        args.push(String::from_str("-o"));
        args.push(string_of(&joined));
        assert(texts_of(args@) =~= mount_args(self@, path@));
        args
    }

    fn pending_exec(&self) -> (r: MountAction)
        requires
            session_wf(self@),
        ensures
            r@ == pending(self@),
    {
        match self.stage {
            MountStage::Start => MountAction::CheckMounted,
            MountStage::Checking => MountAction::CheckMounted,
            MountStage::Preparing => MountAction::CreateDirectory,
            MountStage::WritingCredentials => MountAction::WriteCredentials {
                content: self.credentials_content_exec(),
            },
            MountStage::Mounting => {
                let path = match &self.credentials {
                    Some(p) => p.clone(),
                    None => String::new(),
                };
                MountAction::RunMount { args: self.mount_args_exec(&path) }
            },
            MountStage::Removing => MountAction::RemoveCredentials {
                path: match &self.credentials {
                    Some(p) => p.clone(),
                    None => String::new(),
                },
            },
            MountStage::Done => MountAction::Finish(copy_unit_result(&self.outcome)),
        }
    }

    fn finish(&mut self, outcome: Result<(), String>) -> (r: MountAction)
        ensures
            (final(self)@, r@) == finished(old(self)@, unit_result_view(outcome)),
    {
        self.stage = MountStage::Done;
        self.outcome = copy_unit_result(&outcome);
        MountAction::Finish(outcome)
    }

    /// Moves the session on by `ev` and says what to do next, as
    /// [`transition`] states.
    pub fn next(&mut self, ev: MountEvent) -> (r: MountAction)
        requires
            session_wf(old(self)@),
        ensures
            (final(self)@, r@) == transition(old(self)@, ev@),
            session_wf(final(self)@),
    {
        proof {
            lemma_mount_runs_only_when_valid(self@, ev@);
        }
        match self.stage {
            MountStage::Start => {
                match validate_remote_url(self.remote_url.as_str()) {
                    Err(e) => self.finish(Err(e)),
                    Ok(()) => match validate_mount_point(self.mount_point.as_str()) {
                        Err(e) => self.finish(Err(e)),
                        Ok(()) => {
                            self.stage = MountStage::Checking;
                            MountAction::CheckMounted
                        },
                    },
                }
            },
            MountStage::Checking => match ev {
                MountEvent::MountedChecked(true) => {
                    let mut m = String::from_str("Mount point ");
                    m.append(self.mount_point.as_str());
                    m.append(" is already mounted");
                    self.finish(Err(m))
                },
                MountEvent::MountedChecked(false) => {
                    self.stage = MountStage::Preparing;
                    MountAction::CreateDirectory
                },
                _ => self.pending_exec(),
            },
            MountStage::Preparing => match ev {
                MountEvent::DirectoryReady(Ok(())) => {
                    self.stage = MountStage::WritingCredentials;
                    MountAction::WriteCredentials { content: self.credentials_content_exec() }
                },
                MountEvent::DirectoryReady(Err(e)) => {
                    let mut m = String::from_str("Failed to create mount point directory: ");
                    m.append(e.as_str());
                    self.finish(Err(m))
                },
                _ => self.pending_exec(),
            },
            MountStage::WritingCredentials => match ev {
                MountEvent::CredentialsWritten { path, result: Ok(()) } => {
                    let args = self.mount_args_exec(&path);
                    self.stage = MountStage::Mounting;
                    self.credentials = Some(path);
                    MountAction::RunMount { args }
                },
                MountEvent::CredentialsWritten { path, result: Err(e) } => {
                    self.stage = MountStage::Removing;
                    self.credentials = Some(path.clone());
                    self.outcome = Err(e);
                    MountAction::RemoveCredentials { path }
                },
                _ => self.pending_exec(),
            },
            MountStage::Mounting => {
                let outcome = match ev {
                    MountEvent::MountRan { success: true, stderr: _ } => Some(Ok(())),
                    MountEvent::MountRan { success: false, stderr } => Some(
                        Err(parse_mount_error(stderr.as_str())),
                    ),
                    MountEvent::MountNotRun(e) => {
                        let mut m = String::from_str("Failed to execute mount command: ");
                        m.append(e.as_str());
                        Some(Err(m))
                    },
                    _ => None,
                };
                match outcome {
                    Some(o) => {
                        self.stage = MountStage::Removing;
                        self.outcome = o;
                        MountAction::RemoveCredentials {
                            path: match &self.credentials {
                                Some(p) => p.clone(),
                                None => String::new(),
                            },
                        }
                    },
                    None => self.pending_exec(),
                }
            },
            MountStage::Removing => match ev {
                MountEvent::CredentialsRemoved => {
                    self.stage = MountStage::Done;
                    self.credentials = None;
                    MountAction::Finish(copy_unit_result(&self.outcome))
                },
                _ => self.pending_exec(),
            },
            MountStage::Done => self.pending_exec(),
        }
    }
}

/// Refuses to unmount a mount point that is not mounted.
pub fn check_unmount(mount_point: &str, mounted: bool) -> (r: Result<(), String>)
    ensures
        check_view(r) == if mounted {
            None
        } else {
            Some("Mount point "@ + mount_point@ + " is not currently mounted"@)
        },
{
    if mounted {
        Ok(())
    } else {
        let mut m = String::from_str("Mount point ");
        m.append(mount_point);
        m.append(" is not currently mounted");
        Err(m)
    }
}

/// The outcome of an unmount: success, or the message for its error output.
pub fn unmount_outcome(success: bool, stderr: &str) -> (r: Result<(), String>)
    ensures
        check_view(r) == if success {
            None
        } else {
            Some(umount_error_message(lowercase_of(stderr@), stderr@))
        },
{
    if success {
        Ok(())
    } else {
        Err(parse_umount_error(stderr))
    }
}

/// The path of a credentials file, unique to a process and a second:
/// `/tmp/smb_creds_<pid>_<timestamp>`.
pub fn credentials_path(pid: u32, timestamp: u64) -> (r: String)
    ensures
        r@ == "/tmp/smb_creds_"@ + decimal(pid as nat) + "_"@ + decimal(timestamp as nat),
{
    let mut p = String::from_str("/tmp/smb_creds_");
    p.append(string_of(&decimal_exec(pid as u64)).as_str());
    p.append("_");
    p.append(string_of(&decimal_exec(timestamp)).as_str());
    p
}

} // verus!
