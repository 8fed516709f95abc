//! Path sandboxing: which local paths the dashboard may touch, and which
//! remote paths it passes on.
use vstd::prelude::*;
use crate::task::lit;
use vstd::utf8::encode_utf8;
use crate::text::{
    chars_of, has_sub, pieces, split, split_pieces, string_of, str_contains, trim, trim_chars,
    Sep, lemma_pieces_len,
};

verus! {

broadcast use vstd::string::group_string_axioms;

// ─── Remote paths ───────────────────────────────────────────────────────────

/// Unicode general category `Cc` (C0 and C1 control codes), the set that
/// `char::is_control` tests.
pub open spec fn is_control(c: char) -> bool {
    (c as u32) <= 0x1f || (0x7f <= (c as u32) && (c as u32) <= 0x9f)
}

/// The longest remote path accepted, in UTF-8 bytes.
pub const MAX_REMOTE_PATH: usize = 4096;

/// What `validate_remote_path` answers: the first rule that the path breaks
/// decides the error.
pub open spec fn remote_path_check(p: Seq<char>) -> Result<Seq<char>, Seq<char>> {
    if has_sub(p, ".."@) {
        Err("Path traversal detected"@)
    } else if p.contains('\'') || p.contains('"') || p.contains('`') {
        Err("Invalid characters in path"@)
    } else if encode_utf8(p).len() > MAX_REMOTE_PATH {
        Err("Path too long"@)
    } else if exists|i: int| 0 <= i < p.len() && is_control(#[trigger] p[i]) {
        Err("Control characters not allowed in path"@)
    } else {
        Ok(p)
    }
}

fn has_char(v: &Vec<char>, c: char) -> (b: bool)
    ensures
        b == v@.contains(c),
{
    let mut i: usize = 0;
    while i < v.len()
        invariant
            i <= v.len(),
            forall|k: int| 0 <= k < i ==> v@[k] != c,
        decreases v.len() - i,
    {
        if v[i] == c {
            assert(v@[i as int] == c);
            return true;
        }
        i = i + 1;
    }
    false
}

proof fn lemma_encode_concat(a: Seq<char>, b: Seq<char>)
    ensures
        encode_utf8(a + b) == encode_utf8(a) + encode_utf8(b),
    decreases a.len(),
{
    if a.len() == 0 {
        assert(a + b =~= b);
        assert(encode_utf8(a) =~= Seq::<u8>::empty());
        assert(encode_utf8(a) + encode_utf8(b) =~= encode_utf8(b));
    } else {
        lemma_encode_concat(a.drop_first(), b);
        assert((a + b).drop_first() =~= a.drop_first() + b);
        assert((a + b)[0] == a[0]);
        assert(encode_utf8(a + b) =~= encode_utf8(a) + encode_utf8(b));
    }
}

/// The number of UTF-8 bytes of one character.
pub open spec fn utf8_width(c: char) -> nat {
    encode_utf8(seq![c]).len()
}

proof fn lemma_utf8_width(c: char)
    ensures
        utf8_width(c) == if (c as u32) <= 0x7f {
            1nat
        } else if (c as u32) <= 0x7ff {
            2nat
        } else if (c as u32) <= 0xffff {
            3nat
        } else {
            4nat
        },
{
    assert(seq![c].drop_first() =~= Seq::<char>::empty());
    assert(encode_utf8(Seq::<char>::empty()) =~= Seq::<u8>::empty());
    vstd::utf8::char_is_scalar(c);
}

/// Whether the UTF-8 encoding of `v` is longer than `max` bytes.
fn utf8_len_exceeds(v: &Vec<char>, max: usize) -> (b: bool)
    requires
        max <= 4096,
    ensures
        b == (encode_utf8(v@).len() > max),
{
    let mut n: usize = 0;
    let mut i: usize = 0;
    assert(v@.take(0) =~= Seq::<char>::empty());
    while i < v.len() && n <= max
        invariant
            i <= v.len(),
            max <= 4096,
            n == encode_utf8(v@.take(i as int)).len(),
        decreases v.len() - i,
    {
        let u = v[i] as u32;
        let w: usize = if u <= 0x7f {
            1
        } else if u <= 0x7ff {
            2
        } else if u <= 0xffff {
            3
        } else {
            4
        };
        proof {
            lemma_utf8_width(v@[i as int]);
            assert(v@.take(i + 1) =~= v@.take(i as int) + seq![v@[i as int]]);
            lemma_encode_concat(v@.take(i as int), seq![v@[i as int]]);
        }
        n = n + w;
        i = i + 1;
    }
    proof {
        assert(v@ =~= v@.take(i as int) + v@.skip(i as int));
        lemma_encode_concat(v@.take(i as int), v@.skip(i as int));
    }
    n > max
}

/// Accepts a path for use on the remote host, or says why not: no `..`,
/// no quotes or backticks, at most 4096 bytes, no control characters.
pub fn validate_remote_path(user_path: &str) -> (r: Result<String, String>)
    ensures
        match remote_path_check(user_path@) {
            Ok(p) => r matches Ok(x) && x@ == p,
            Err(e) => r matches Err(x) && x@ == e,
        },
{
    if str_contains(user_path, "..") {
        return Err(lit("Path traversal detected"));
    }
    let v = chars_of(user_path);
    if has_char(&v, '\'') || has_char(&v, '"') || has_char(&v, '`') {
        return Err(lit("Invalid characters in path"));
    }
    if utf8_len_exceeds(&v, MAX_REMOTE_PATH) {
        return Err(lit("Path too long"));
    }
    let mut i: usize = 0;
    while i < v.len()
        invariant
            i <= v.len(),
            v@ == user_path@,
            !has_sub(user_path@, ".."@),
            !(user_path@.contains('\'') || user_path@.contains('"') || user_path@.contains('`')),
            encode_utf8(user_path@).len() <= MAX_REMOTE_PATH,
            forall|k: int| 0 <= k < i ==> !is_control(#[trigger] v@[k]),
        decreases v.len() - i,
    {
        let u = v[i] as u32;
        if u <= 0x1f || (0x7f <= u && u <= 0x9f) {
            assert(is_control(v@[i as int]));
            return Err(lit("Control characters not allowed in path"));
        }
        i = i + 1;
    }
    Ok(lit(user_path))
}

// ─── Allowed prefixes ───────────────────────────────────────────────────────

/// The system the dashboard runs on, as far as the allowed directories go.
#[derive(Clone, Copy)]
pub enum HostOs {
    /// macOS.
    MacOs,
    /// Linux and every other system.
    Linux,
}

/// The directories allowed on Linux where none are configured.
pub open spec fn linux_prefixes() -> Seq<Seq<char>> {
    seq!["/home"@, "/opt"@, "/etc"@, "/var"@, "/srv"@, "/tmp"@, "/var/lib/docker"@]
}

/// The directories allowed on macOS where none are configured: the home
/// directory (where one is known and not empty), then the fixed ones.
pub open spec fn macos_prefixes(home: Option<Seq<char>>) -> Seq<Seq<char>> {
    let fixed = seq!["/opt/homebrew"@, "/usr/local"@, "/private/var"@, "/tmp"@];
    match home {
        Some(h) => if h.len() > 0 {
            seq![h] + fixed
        } else {
            fixed
        },
        None => fixed,
    }
}

/// The directories allowed where none are configured.
pub open spec fn default_prefixes(os: HostOs, home: Option<Seq<char>>) -> Seq<Seq<char>> {
    match os {
        HostOs::MacOs => macos_prefixes(home),
        HostOs::Linux => linux_prefixes(),
    }
}

pub open spec fn trim_fn() -> spec_fn(Seq<char>) -> Seq<char> {
    |s: Seq<char>| trim(s)
}

pub open spec fn nonempty_fn() -> spec_fn(Seq<char>) -> bool {
    |s: Seq<char>| s.len() > 0
}

pub open spec fn opt_view(o: Option<&str>) -> Option<Seq<char>> {
    match o {
        Some(c) => Some(c@),
        None => None,
    }
}

/// The allowed directories: the trimmed, non-empty colon-separated entries
/// of the configured list where it has any, else the defaults of the system.
pub open spec fn prefixes_from(custom: Option<Seq<char>>, os: HostOs, home: Option<Seq<char>>) -> Seq<
    Seq<char>,
> {
    match custom {
        Some(c) => {
            let parts = split(c, Sep::Char(':')).map_values(trim_fn()).filter(nonempty_fn());
            if parts.len() > 0 {
                parts
            } else {
                default_prefixes(os, home)
            }
        },
        None => default_prefixes(os, home),
    }
}

/// The allowed directories, from the configured list where one is set,
/// else the defaults of the system (`home` is `$HOME`, used on macOS).
pub fn allowed_prefixes(custom: Option<&str>, os: HostOs, home: Option<&str>) -> (r: Vec<String>)
    ensures
        r.deep_view() == prefixes_from(opt_view(custom), os, opt_view(home)),
{
    if let Some(c) = custom {
        let v = chars_of(c);
        let ps = split_pieces(&v, Sep::Char(':'), usize::MAX);
        let ghost all = ps.deep_view().map_values(trim_fn());
        let mut parts: Vec<String> = Vec::new();
        assert(all.take(0) =~= Seq::<Seq<char>>::empty());
        for i in 0..ps.len()
            invariant
                all == ps.deep_view().map_values(trim_fn()),
                parts.deep_view() == all.take(i as int).filter(nonempty_fn()),
        {
            reveal_with_fuel(Seq::filter, 1);
            assert(all.take(i + 1).drop_last() =~= all.take(i as int));
            assert(ps[i as int].deep_view() =~= ps[i as int]@);
            let t = trim_chars(&ps[i]);
            assert(all[i as int] == t@);
            if t.len() > 0 {
                let ghost pv = parts.deep_view();
                parts.push(string_of(t.as_slice()));
                assert(parts.deep_view() =~= pv.push(t@));
            }
        }
        assert(all.take(ps.len() as int) =~= all);
        if parts.len() > 0 {
            return parts;
        }
    }
    let mut d: Vec<String> = Vec::new();
    match os {
        HostOs::Linux => {
            d.push(lit("/home"));
            d.push(lit("/opt"));
            d.push(lit("/etc"));
            d.push(lit("/var"));
            d.push(lit("/srv"));
            d.push(lit("/tmp"));
            d.push(lit("/var/lib/docker"));
            assert(d.deep_view() =~= linux_prefixes());
        },
        HostOs::MacOs => {
            if let Some(h) = home {
                if !h.is_empty() {
                    d.push(lit(h));
                }
            }
            let ghost pre = d.deep_view();
            d.push(lit("/opt/homebrew"));
            d.push(lit("/usr/local"));
            d.push(lit("/private/var"));
            d.push(lit("/tmp"));
            assert(d.deep_view() =~= pre + seq!["/opt/homebrew"@, "/usr/local"@, "/private/var"@, "/tmp"@]);
            assert(d.deep_view() =~= macos_prefixes(opt_view(home)));
        },
    }
    d
}

// ─── Path components ────────────────────────────────────────────────────────

/// The component that stands for the root directory.
pub open spec fn root_component() -> Seq<char> {
    seq!['/']
}

/// The component that stands for a leading `.`.
pub open spec fn cur_component() -> Seq<char> {
    seq!['.']
}

/// A piece between slashes that names something.
pub open spec fn normal_piece(w: Seq<char>) -> bool {
    w.len() > 0 && w != cur_component()
}

pub open spec fn normal_fn() -> spec_fn(Seq<char>) -> bool {
    |w: Seq<char>| normal_piece(w)
}

/// The components of a Unix path, as `Path::components` gives them: the
/// root where the path starts with `/`, else a leading `.` where there is
/// one, then the pieces between slashes that are neither empty nor `.`.
pub open spec fn components(p: Seq<char>) -> Seq<Seq<char>> {
    let parts = split(p, Sep::Char('/'));
    if p.len() > 0 && p[0] == '/' {
        seq![root_component()] + parts.filter(normal_fn())
    } else if parts[0] == cur_component() {
        seq![cur_component()] + parts.drop_first().filter(normal_fn())
    } else {
        parts.filter(normal_fn())
    }
}

/// `path` lies under `base`: the components of `base` begin those of `path`
/// (`Path::starts_with`).
pub open spec fn path_under(path: Seq<char>, base: Seq<char>) -> bool {
    components(base).is_prefix_of(components(path))
}

/// `path` lies under one of the allowed directories.
pub open spec fn under_any(path: Seq<char>, prefixes: Seq<Seq<char>>) -> bool {
    exists|i: int| 0 <= i < prefixes.len() && path_under(path, #[trigger] prefixes[i])
}

fn vec_eq(a: &Vec<char>, b: &Vec<char>) -> (r: bool)
    ensures
        r == (a@ == b@),
{
    if a.len() != b.len() {
        return false;
    }
    let mut i: usize = 0;
    while i < a.len()
        invariant
            a.len() == b.len(),
            i <= a.len(),
            forall|k: int| 0 <= k < i ==> a@[k] == b@[k],
        decreases a.len() - i,
    {
        if a[i] != b[i] {
            assert(a@[i as int] != b@[i as int]);
            return false;
        }
        i = i + 1;
    }
    assert(a@ =~= b@);
    true
}

fn keep_normal(parts: &Vec<Vec<char>>, from: usize, out: &mut Vec<Vec<char>>)
    requires
        from <= parts.len(),
    ensures
        final(out).deep_view() == old(out).deep_view() + parts.deep_view().skip(from as int).filter(
            normal_fn(),
        ),
{
    let ghost base = out.deep_view();
    let ghost all = parts.deep_view().skip(from as int);
    let mut i = from;
    assert(all.take(0) =~= Seq::<Seq<char>>::empty());
    while i < parts.len()
        invariant
            from <= i <= parts.len(),
            all == parts.deep_view().skip(from as int),
            out.deep_view() == base + all.take(i - from).filter(normal_fn()),
        decreases parts.len() - i,
    {
        reveal_with_fuel(Seq::filter, 1);
        assert(all.take(i - from + 1).drop_last() =~= all.take(i - from));
        assert(parts[i as int].deep_view() =~= parts[i as int]@);
        assert(all[i - from] == parts[i as int]@);
        let dot = chars_of(".");
        proof {
            reveal_strlit(".");
        }
        assert(dot@ =~= cur_component());
        if parts[i].len() > 0 && !vec_eq(&parts[i], &dot) {
            let ghost ov = out.deep_view();
            let w = crate::text::sub_chars(&parts[i], 0, parts[i].len());
            assert(w@ =~= parts[i as int]@);
            assert(w.deep_view() =~= w@);
            out.push(w);
            assert(out.deep_view() =~= ov.push(parts[i as int]@));
        }
        i = i + 1;
    }
    assert(all.take(parts.len() - from) =~= all);
}

/// The components of a path (see `components`).
pub fn path_components(p: &str) -> (r: Vec<Vec<char>>)
    ensures
        r.deep_view() == components(p@),
{
    let v = chars_of(p);
    let parts = split_pieces(&v, Sep::Char('/'), usize::MAX);
    proof {
        lemma_pieces_len(v@, Sep::Char('/'), usize::MAX as nat);
    }
    let mut out: Vec<Vec<char>> = Vec::new();
    let dot = chars_of(".");
    proof {
        reveal_strlit(".");
    }
    assert(dot@ =~= cur_component());
    assert(parts[0int].deep_view() =~= parts[0int]@);
    if v.len() > 0 && v[0] == '/' {
        let mut root: Vec<char> = Vec::new();
        root.push('/');
        assert(root.deep_view() =~= root_component());
        out.push(root);
        assert(out.deep_view() =~= seq![root_component()]);
        assert(parts.deep_view().skip(0) =~= parts.deep_view());
        keep_normal(&parts, 0, &mut out);
    } else if vec_eq(&parts[0], &dot) {
        assert(dot.deep_view() =~= dot@);
        out.push(dot);
        assert(out.deep_view() =~= seq![cur_component()]);
        assert(parts.deep_view().skip(1) =~= parts.deep_view().drop_first());
        keep_normal(&parts, 1, &mut out);
    } else {
        assert(out.deep_view() =~= Seq::<Seq<char>>::empty());
        assert(parts.deep_view().skip(0) =~= parts.deep_view());
        keep_normal(&parts, 0, &mut out);
        assert(out.deep_view() =~= parts.deep_view().filter(normal_fn()));
    }
    out
}

/// Whether `path` lies under `base` (see `path_under`).
pub fn path_starts_with(path: &str, base: &str) -> (b: bool)
    ensures
        b == path_under(path@, base@),
{
    let pc = path_components(path);
    let bc = path_components(base);
    if bc.len() > pc.len() {
        return false;
    }
    let mut i: usize = 0;
    while i < bc.len()
        invariant
            bc.len() <= pc.len(),
            i <= bc.len(),
            pc.deep_view() == components(path@),
            bc.deep_view() == components(base@),
            forall|k: int| 0 <= k < i ==> bc.deep_view()[k] == pc.deep_view()[k],
        decreases bc.len() - i,
    {
        assert(bc[i as int].deep_view() =~= bc[i as int]@);
        assert(pc[i as int].deep_view() =~= pc[i as int]@);
        if !vec_eq(&bc[i], &pc[i]) {
            assert(bc.deep_view()[i as int] != pc.deep_view()[i as int]);
            assert(pc.deep_view().subrange(0, bc.len() as int)[i as int] != bc.deep_view()[i as int]);
            return false;
        }
        i = i + 1;
    }
    assert(bc.deep_view() =~= pc.deep_view().subrange(0, bc.len() as int));
    true
}

/// Whether `path` lies under one of the allowed directories.
pub fn starts_with_any(path: &str, prefixes: &Vec<String>) -> (b: bool)
    ensures
        b == under_any(path@, prefixes.deep_view()),
{
    let mut i: usize = 0;
    while i < prefixes.len()
        invariant
            i <= prefixes.len(),
            forall|k: int| 0 <= k < i ==> !path_under(path@, #[trigger] prefixes.deep_view()[k]),
        decreases prefixes.len() - i,
    {
        assert(prefixes.deep_view()[i as int] == prefixes[i as int]@);
        if path_starts_with(path, prefixes[i].as_str()) {
            return true;
        }
        i = i + 1;
    }
    false
}


// ─── Sandboxing local paths ─────────────────────────────────────────────────

/// How `{:?}` shows a list of texts.
pub uninterp spec fn debug_list_text(items: Seq<Seq<char>>) -> Seq<char>;

/// Formats a list of texts with `{:?}` (`Vec<String>`'s `Debug`); the
/// result is named by `debug_list_text`.
#[verifier::external_body]
fn debug_list(items: &Vec<String>) -> (r: String)
    ensures
        r@ == debug_list_text(items.deep_view()),
{
    format!("{:?}", items)
}

/// A Unix path that starts at the root.
pub open spec fn is_absolute(p: Seq<char>) -> bool {
    p.len() > 0 && p[0] == '/'
}

/// `target` taken relative to `base` (`Path::join` on Unix): an absolute
/// target stands for itself; else the two with one slash between.
pub open spec fn joined(base: Seq<char>, target: Seq<char>) -> Seq<char> {
    if is_absolute(target) || base.len() == 0 {
        target
    } else if base.last() == '/' {
        base + target
    } else {
        base + seq!['/'] + target
    }
}

/// `target` joined to `base` (`Path::join`).
pub fn join_path(base: &str, target: &str) -> (r: String)
    ensures
        r@ == joined(base@, target@),
{
    let b = chars_of(base);
    let t = chars_of(target);
    if (t.len() > 0 && t[0] == '/') || b.len() == 0 {
        return lit(target);
    }
    let mut r = lit(base);
    if b[b.len() - 1] != '/' {
        r.append("/");
        proof {
            reveal_strlit("/");
        }
    }
    r.append(target);
    r
}

/// What the application found out about the path given: whether it is a
/// symbolic link, its target, and where that target resolves.
pub enum LinkProbe {
    /// The path is no symbolic link.
    NotLink,
    /// It is one, and its target could not be read.
    Unreadable,
    /// It is one; `resolved` is its target made canonical (a relative target
    /// taken from the link's own directory, see `link_target_path`), where
    /// that succeeded.
    Target { target: String, resolved: Option<String> },
}

pub enum LinkView {
    NotLink,
    Unreadable,
    Target { target: Seq<char>, resolved: Option<Seq<char>> },
}

impl View for LinkProbe {
    type V = LinkView;

    open spec fn view(&self) -> LinkView {
        match self {
            LinkProbe::NotLink => LinkView::NotLink,
            LinkProbe::Unreadable => LinkView::Unreadable,
            LinkProbe::Target { target, resolved } => LinkView::Target {
                target: target@,
                resolved: match resolved {
                    Some(r) => Some(r@),
                    None => None,
                },
            },
        }
    }
}

/// The sandbox's answer for `user_path`, whose canonical form is `canonical`
/// (none where it does not exist): the canonical path where it lies under an
/// allowed directory and, where it is a symbolic link, its target does too.
pub open spec fn sandbox_answer(
    user_path: Seq<char>,
    prefixes: Seq<Seq<char>>,
    canonical: Option<Seq<char>>,
    link: LinkView,
) -> Result<Seq<char>, Seq<char>> {
    match canonical {
        None => Err("Invalid or non-existent path: "@ + user_path),
        Some(c) => if !under_any(c, prefixes) {
            Err("Path "@ + user_path + " is outside allowed directories: "@ + debug_list_text(
                prefixes,
            ))
        } else {
            match link {
                LinkView::NotLink => Ok(c),
                LinkView::Unreadable => Err("Cannot read symlink"@),
                LinkView::Target { target, resolved } => match resolved {
                    None => if is_absolute(target) {
                        Err("Cannot resolve symlink"@)
                    } else {
                        Err("Symlink escape"@)
                    },
                    Some(t) => if under_any(t, prefixes) {
                        Ok(c)
                    } else {
                        Err("Symlink escape detected"@)
                    },
                },
            }
        },
    }
}

/// Confines a local path to the allowed directories: gives its canonical
/// form, or says why the path is refused.
pub fn canonicalize(
    user_path: &str,
    prefixes: &Vec<String>,
    canonical: Option<String>,
    link: LinkProbe,
) -> (r: Result<String, String>)
    ensures
        match sandbox_answer(
            user_path@,
            prefixes.deep_view(),
            match canonical {
                Some(c) => Some(c@),
                None => None,
            },
            link@,
        ) {
            Ok(p) => r matches Ok(x) && x@ == p,
            Err(e) => r matches Err(x) && x@ == e,
        },
{
    let c = match canonical {
        None => {
            let mut m = lit("Invalid or non-existent path: ");
            m.append(user_path);
            return Err(m);
        },
        Some(c) => c,
    };
    if !starts_with_any(c.as_str(), prefixes) {
        let mut m = lit("Path ");
        m.append(user_path);
        m.append(" is outside allowed directories: ");
        let d = debug_list(prefixes);
        m.append(d.as_str());
        return Err(m);
    }
    match link {
        LinkProbe::NotLink => Ok(c),
        LinkProbe::Unreadable => Err(lit("Cannot read symlink")),
        LinkProbe::Target { target, resolved } => match resolved {
            None => {
                let t = chars_of(target.as_str());
                if t.len() > 0 && t[0] == '/' {
                    Err(lit("Cannot resolve symlink"))
                } else {
                    Err(lit("Symlink escape"))
                }
            },
            Some(res) => if starts_with_any(res.as_str(), prefixes) {
                Ok(c)
            } else {
                Err(lit("Symlink escape detected"))
            },
        },
    }
}

/// The sandbox confines: every path it accepts is the canonical path given,
/// lies under one of the allowed directories, and where it is a symbolic
/// link, its resolved target lies under one of them too.
pub proof fn law_sandbox_confines(
    user_path: Seq<char>,
    prefixes: Seq<Seq<char>>,
    canonical: Option<Seq<char>>,
    link: LinkView,
)
    ensures
        sandbox_answer(user_path, prefixes, canonical, link) matches Ok(p) ==> {
            &&& canonical == Some(p)
            &&& under_any(p, prefixes)
            &&& (link matches LinkView::Target { resolved, .. } ==> (resolved matches Some(t)
                && under_any(t, prefixes)))
            &&& !(link is Unreadable)
        },
{
}


/// There is always at least one allowed directory, so the sandbox never
/// runs without a list.
pub proof fn law_prefixes_never_empty(custom: Option<Seq<char>>, os: HostOs, home: Option<Seq<char>>)
    ensures
        prefixes_from(custom, os, home).len() > 0,
{
}

/// A remote path that passes validation is passed on unchanged and has no
/// `..`, no quote or backtick, no control character, and at most 4096 bytes.
pub proof fn law_remote_path_safe(p: Seq<char>)
    ensures
        remote_path_check(p) matches Ok(q) ==> {
            &&& q == p
            &&& !has_sub(p, ".."@)
            &&& !p.contains('\'') && !p.contains('"') && !p.contains('`')
            &&& encode_utf8(p).len() <= MAX_REMOTE_PATH
            &&& forall|i: int| 0 <= i < p.len() ==> !is_control(#[trigger] p[i])
        },
{
}


// ─── Following links and judging paths ──────────────────────────────────────

/// `p` without trailing slashes (a lone `/` stays).
pub open spec fn strip_trailing_slashes(p: Seq<char>) -> Seq<char>
    decreases p.len(),
{
    if p.len() > 1 && p.last() == '/' {
        strip_trailing_slashes(p.drop_last())
    } else {
        p
    }
}

/// The text before the last slash of `q`, where it has one.
pub open spec fn before_last_slash(q: Seq<char>) -> Option<Seq<char>>
    decreases q.len(),
{
    if q.len() == 0 {
        None
    } else if q.last() == '/' {
        Some(q.drop_last())
    } else {
        before_last_slash(q.drop_last())
    }
}

/// The directory that holds `p`: the text before its last slash (trailing
/// slashes aside), `/` for an entry of the root, and the empty text (the
/// working directory) for a bare name.
pub open spec fn parent_text(p: Seq<char>) -> Seq<char> {
    match before_last_slash(strip_trailing_slashes(p)) {
        None => Seq::empty(),
        Some(b) => if b.len() == 0 {
            seq!['/']
        } else {
            b
        },
    }
}

/// Where the target of the link `link` points: an absolute target as it
/// stands, a relative one taken from the directory that holds the link.
pub open spec fn link_target_at(link: Seq<char>, target: Seq<char>) -> Seq<char> {
    joined(parent_text(link), target)
}

/// The path at which the target of the link `link` is found.
pub fn link_target_path(link: &str, target: &str) -> (r: String)
    ensures
        r@ == link_target_at(link@, target@),
{
    let v = chars_of(link);
    let mut hi = v.len();
    assert(v@.subrange(0, hi as int) =~= v@);
    while hi > 1 && v[hi - 1] == '/'
        invariant
            hi <= v.len(),
            strip_trailing_slashes(v@) == strip_trailing_slashes(v@.subrange(0, hi as int)),
        decreases hi,
    {
        assert(v@.subrange(0, hi as int).drop_last() =~= v@.subrange(0, hi - 1));
        hi = hi - 1;
    }
    let ghost q = v@.subrange(0, hi as int);
    assert(q == strip_trailing_slashes(v@));
    let mut k = hi;
    assert(v@.subrange(0, k as int) =~= q);
    while k > 0 && v[k - 1] != '/'
        invariant
            k <= hi <= v.len(),
            q == v@.subrange(0, hi as int),
            before_last_slash(q) == before_last_slash(v@.subrange(0, k as int)),
        decreases k,
    {
        assert(v@.subrange(0, k as int).drop_last() =~= v@.subrange(0, k - 1));
        k = k - 1;
    }
    let parent = if k == 0 {
        String::new()
    } else if k == 1 {
        assert(v@.subrange(0, k as int).drop_last() =~= Seq::<char>::empty());
        let mut r = String::new();
        r.append("/");
        proof {
            reveal_strlit("/");
        }
        assert(r@ =~= seq!['/']);
        r
    } else {
        assert(v@.subrange(0, k as int).drop_last() =~= v@.subrange(0, k - 1));
        let b = crate::text::sub_chars(&v, 0, k - 1);
        string_of(b.as_slice())
    };
    assert(parent@ == parent_text(link@));
    join_path(parent.as_str(), target)
}

/// What the application found out about a local path.
pub enum PathProbe {
    /// Something is at the path (a dangling link counts): its canonical form,
    /// where there is one, and whether it is a link.
    Present { canonical: Option<String>, link: LinkProbe },
    /// Nothing is at the path: the canonical form of the nearest ancestor
    /// that exists, where it could be found, and the names below it.
    Missing { ancestor: Option<String>, rest: Vec<String> },
}

pub enum ProbeView {
    Present { canonical: Option<Seq<char>>, link: LinkView },
    Missing { ancestor: Option<Seq<char>>, rest: Seq<Seq<char>> },
}

impl View for PathProbe {
    type V = ProbeView;

    open spec fn view(&self) -> ProbeView {
        match self {
            PathProbe::Present { canonical, link } => ProbeView::Present {
                canonical: match canonical {
                    Some(c) => Some(c@),
                    None => None,
                },
                link: link@,
            },
            PathProbe::Missing { ancestor, rest } => ProbeView::Missing {
                ancestor: match ancestor {
                    Some(a) => Some(a@),
                    None => None,
                },
                rest: rest.deep_view(),
            },
        }
    }
}

/// The probe of a path, where one was made; none counts as a path that
/// cannot be found.
pub open spec fn probe_of(p: Option<PathProbe>) -> ProbeView {
    match p {
        Some(x) => x@,
        None => ProbeView::Missing { ancestor: None, rest: Seq::empty() },
    }
}

/// A name of one directory entry: not empty, not `.` or `..`, no slash.
pub open spec fn plain_name(w: Seq<char>) -> bool {
    normal_piece(w) && w != seq!['.', '.'] && !w.contains('/')
}

/// Whether the dashboard may touch the local path `user_path`: a present
/// path as `sandbox_answer` judges it; a missing one only where it may be
/// created, its nearest existing ancestor lies under an allowed directory,
/// and the names below that ancestor are plain.
pub open spec fn access_answer(
    user_path: Seq<char>,
    prefixes: Seq<Seq<char>>,
    probe: ProbeView,
    may_create: bool,
) -> Result<Seq<char>, Seq<char>> {
    match probe {
        ProbeView::Present { canonical, link } => sandbox_answer(user_path, prefixes, canonical, link),
        ProbeView::Missing { ancestor, rest } => match ancestor {
            Some(a) => if !may_create || !(forall|i: int|
                0 <= i < rest.len() ==> plain_name(#[trigger] rest[i])) {
                Err("Invalid or non-existent path: "@ + user_path)
            } else if !under_any(a, prefixes) {
                Err("Path "@ + user_path + " is outside allowed directories: "@ + debug_list_text(
                    prefixes,
                ))
            } else {
                Ok(user_path)
            },
            None => Err("Invalid or non-existent path: "@ + user_path),
        },
    }
}

fn plain_names(rest: &Vec<String>) -> (b: bool)
    ensures
        b == (forall|i: int| 0 <= i < rest.deep_view().len() ==> plain_name(#[trigger] rest.deep_view()[i])),
{
    let mut i: usize = 0;
    while i < rest.len()
        invariant
            i <= rest.len(),
            forall|k: int| 0 <= k < i ==> plain_name(#[trigger] rest.deep_view()[k]),
        decreases rest.len() - i,
    {
        let w = chars_of(rest[i].as_str());
        assert(rest.deep_view()[i as int] == w@);
        let dots = w.len() == 2 && w[0] == '.' && w[1] == '.';
        let dot = w.len() == 1 && w[0] == '.';
        proof {
            if w@ == seq!['.', '.'] {
                assert(w@[0] == '.' && w@[1] == '.');
            }
        }
        if w.len() == 0 || dot || dots || has_char(&w, '/') {
            assert(!plain_name(w@)) by {
                if dot {
                    assert(w@ =~= cur_component());
                }
                if dots {
                    assert(w@ =~= seq!['.', '.']);
                }
            }
            return false;
        }
        assert(w@ != cur_component()) by {
            if w@ == cur_component() {
                assert(w@[0] == '.');
            }
        }
        i = i + 1;
    }
    true
}

/// Judges whether the dashboard may touch a local path (see
/// `access_answer`), answering the path or why it is refused.
pub fn check_access(user_path: &str, prefixes: &Vec<String>, probe: Option<PathProbe>, may_create: bool) -> (r: Result<String, String>)
    ensures
        match access_answer(user_path@, prefixes.deep_view(), probe_of(probe), may_create) {
            Ok(p) => r matches Ok(x) && x@ == p,
            Err(e) => r matches Err(x) && x@ == e,
        },
{
    let ghost pv = probe_of(probe);
    match probe {
        Some(PathProbe::Present { canonical, link }) => canonicalize(user_path, prefixes, canonical, link),
        Some(PathProbe::Missing { ancestor: Some(a), rest }) => {
            assert(pv == (ProbeView::Missing { ancestor: Some(a@), rest: rest.deep_view() }));
            let plain = plain_names(&rest);
            if !may_create || !plain {
                let mut m = lit("Invalid or non-existent path: ");
                m.append(user_path);
                proof {
                    if may_create {
                        let i = choose|i: int|
                            0 <= i < rest.deep_view().len() && !plain_name(#[trigger] rest.deep_view()[i]);
                        assert(!plain_name(rest.deep_view()[i]));
                    }
                    assert(pv matches ProbeView::Missing { ancestor: Some(aa), rest: rr } && aa == a@ && rr == rest.deep_view());
                    assert(!may_create || !(forall|i: int| 0 <= i < rest.deep_view().len() ==> plain_name(#[trigger] rest.deep_view()[i])));
                    assert(access_answer(user_path@, prefixes.deep_view(), pv, may_create) is Err);
                }
                return Err(m);
            }
            if !starts_with_any(a.as_str(), prefixes) {
                let mut m = lit("Path ");
                m.append(user_path);
                m.append(" is outside allowed directories: ");
                let d = debug_list(prefixes);
                m.append(d.as_str());
                return Err(m);
            }
            Ok(lit(user_path))
        },
        _ => {
            let mut m = lit("Invalid or non-existent path: ");
            m.append(user_path);
            Err(m)
        },
    }
}

/// Access is confined: a path the dashboard may touch either is present and
/// accepted by the sandbox (its canonical form, and a link's resolved
/// target, lie under an allowed directory), or may be created and sits below
/// an existing ancestor under an allowed directory by plain names only.
pub proof fn law_access_confined(
    user_path: Seq<char>,
    prefixes: Seq<Seq<char>>,
    probe: ProbeView,
    may_create: bool,
)
    ensures
        access_answer(user_path, prefixes, probe, may_create) is Ok ==> match probe {
            ProbeView::Present { canonical, link } => canonical matches Some(c) && under_any(
                c,
                prefixes,
            ) && (link matches LinkView::Target { resolved, .. } ==> (resolved matches Some(t)
                && under_any(t, prefixes))) && !(link is Unreadable),
            ProbeView::Missing { ancestor, rest } => may_create && (ancestor matches Some(a)
                && under_any(a, prefixes)) && forall|i: int|
                0 <= i < rest.len() ==> plain_name(#[trigger] rest[i]),
        },
{
}

} // verus!
