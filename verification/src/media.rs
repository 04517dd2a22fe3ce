//! The local media server's rules: which directories it may serve from,
//! which web origins may call it, the content type of a file, and the
//! address of a served file.

use vstd::prelude::*;
use crate::config::strs;
use crate::encoding::percent_encode;
use crate::text::{
    chars_of, push_digits, push_str, split_by, split_chars, starts_with_spec, str_eq,
    str_starts_with, string_of, unicode_lowercase, views,
};

verus! {

/// A component that `Path::components` keeps after the first one: not
/// empty and not `.`.
pub open spec fn kept_part(p: Seq<char>) -> bool {
    p.len() > 0 && p != "."@
}

pub open spec fn kept_parts(ps: Seq<Seq<char>>) -> Seq<Seq<char>>
    decreases ps.len(),
{
    if ps.len() == 0 {
        Seq::empty()
    } else if kept_part(ps.last()) {
        kept_parts(ps.drop_last()).push(ps.last())
    } else {
        kept_parts(ps.drop_last())
    }
}

/// The components of a Unix path as `Path::components` yields them: `/`
/// for the root, `.` for a leading current directory, then the names
/// between separators, without empty ones and without `.`.
pub open spec fn path_components(s: Seq<char>) -> Seq<Seq<char>> {
    let parts = split_by(s, seq!['/']);
    if s.len() > 0 && s[0] == '/' {
        seq!["/"@] + kept_parts(parts)
    } else if parts[0] == "."@ {
        seq!["."@] + kept_parts(parts.skip(1))
    } else {
        kept_parts(parts)
    }
}

/// `Path::starts_with`: the components of `base` begin those of `path`.
pub open spec fn path_starts_with(path: Seq<char>, base: Seq<char>) -> bool {
    let a = path_components(path);
    let b = path_components(base);
    b.len() <= a.len() && a.take(b.len() as int) == b
}

fn kept_parts_exec(ps: &Vec<Vec<char>>, from: usize) -> (r: Vec<Vec<char>>)
    requires
        from <= ps.len(),
    ensures
        views(r@) == kept_parts(views(ps@).skip(from as int)),
{
    let ghost all = views(ps@).skip(from as int);
    let mut r: Vec<Vec<char>> = Vec::new();
    let mut i: usize = from;
    let dot: Vec<char> = vec!['.'];
    assert(dot@ == "."@) by {
        reveal_strlit(".");
    }
    assert(all.take(0) == Seq::<Seq<char>>::empty());
    while i < ps.len()
        invariant
            from <= i <= ps.len(),
            all == views(ps@).skip(from as int),
            dot@ == "."@,
            views(r@) == kept_parts(all.take(i - from)),
        decreases ps.len() - i,
    {
        assert(all.take(i - from + 1).drop_last() == all.take(i - from));
        assert(all.take(i - from + 1).last() == ps@[i as int]@);
        if ps[i].len() > 0 && !crate::text::chars_eq(&ps[i], &dot) {
            let p = copy_chars(&ps[i]);
            let ghost pre = views(r@);
            r.push(p);
            assert(views(r@) == pre.push(p@));
        }
        i = i + 1;
    }
    assert(all.take(ps.len() - from) == all);
    r
}

fn copy_chars(v: &Vec<char>) -> (r: Vec<char>)
    ensures
        r@ == v@,
{
    let mut r: Vec<char> = Vec::new();
    crate::text::push_all(&mut r, v);
    r
}

/// The components of a Unix path.
pub fn components(path: &str) -> (r: Vec<Vec<char>>)
    ensures
        views(r@) == path_components(path@),
{
    let cs = chars_of(path);
    let seps: Vec<char> = vec!['/'];
    let parts = split_chars(&cs, &seps);
    assert(seps@ == seq!['/']);
    proof {
        crate::text::lemma_split_nonempty(cs@, seps@);
        reveal_strlit("/");
        reveal_strlit(".");
    }
    let dot: Vec<char> = vec!['.'];
    assert(dot@ == "."@);
    let mut r: Vec<Vec<char>> = Vec::new();
    if cs.len() > 0 && cs[0] == '/' {
        let root: Vec<char> = vec!['/'];
        assert(root@ == "/"@);
        r.push(root);
        let mut rest = kept_parts_exec(&parts, 0);
        assert(views(parts@).skip(0) == views(parts@));
        let ghost head = views(r@);
        r.append(&mut rest);
        assert(views(r@) == head + kept_parts(views(parts@)));
    } else if crate::text::chars_eq(&parts[0], &dot) {
        assert(views(parts@)[0] == "."@);
        let cur: Vec<char> = vec!['.'];
        assert(cur@ == "."@);
        r.push(cur);
        let mut rest = kept_parts_exec(&parts, 1);
        let ghost head = views(r@);
        r.append(&mut rest);
        assert(views(r@) == head + kept_parts(views(parts@).skip(1)));
    } else {
        assert(views(parts@)[0] != "."@);
        r = kept_parts_exec(&parts, 0);
        assert(views(parts@).skip(0) == views(parts@));
    }
    r
}

/// Whether `path` lies under `base`, component by component.
pub fn starts_with_path(path: &str, base: &str) -> (r: bool)
    ensures
        r == path_starts_with(path@, base@),
{
    let a = components(path);
    let b = components(base);
    if b.len() > a.len() {
        return false;
    }
    let ghost av = views(a@);
    let ghost bv = views(b@);
    let mut i: usize = 0;
    while i < b.len()
        invariant
            i <= b.len() <= a.len(),
            av == views(a@),
            bv == views(b@),
            av == path_components(path@),
            bv == path_components(base@),
            forall|k: int| 0 <= k < i ==> av[k] == bv[k],
        decreases b.len() - i,
    {
        if !crate::text::chars_eq(&a[i], &b[i]) {
            assert(av.take(b.len() as int)[i as int] != bv[i as int]);
            assert(av.take(b.len() as int) != bv);
            return false;
        }
        i = i + 1;
    }
    assert(av.take(b.len() as int) =~= bv);
    true
}

/// The local media server: its port and the directories it may serve from.
pub struct MediaServer {
    pub port: u16,
    pub allowed_prefixes: Vec<String>,
}

impl MediaServer {
    pub fn new(port: u16) -> (r: MediaServer)
        ensures
            r.port == port,
            r.allowed_prefixes@.len() == 0,
    {
        MediaServer { port, allowed_prefixes: Vec::new() }
    }

    /// The port it listens on.
    pub fn port(&self) -> (r: u16)
        ensures
            r == self.port,
    {
        self.port
    }

    /// Registers a directory (as canonicalized by the caller) unless it is
    /// registered already.
    pub fn allow_prefix(&mut self, canonical: String)
        ensures
            final(self).port == old(self).port,
            strs(final(self).allowed_prefixes@) == if strs(old(self).allowed_prefixes@).contains(
                canonical@,
            ) {
                strs(old(self).allowed_prefixes@)
            } else {
                strs(old(self).allowed_prefixes@).push(canonical@)
            },
    {
        let ghost ps = strs(self.allowed_prefixes@);
        let mut i: usize = 0;
        while i < self.allowed_prefixes.len()
            invariant
                i <= self.allowed_prefixes.len(),
                ps == strs(self.allowed_prefixes@),
                forall|k: int| 0 <= k < i ==> ps[k] != canonical@,
            decreases self.allowed_prefixes.len() - i,
        {
            if str_eq(self.allowed_prefixes[i].as_str(), canonical.as_str()) {
                assert(ps[i as int] == canonical@);
                return;
            }
            i = i + 1;
        }
        let ghost pre = self.allowed_prefixes@;
        self.allowed_prefixes.push(canonical);
        assert(strs(self.allowed_prefixes@) == strs(pre).push(canonical@));
    }

    pub open spec fn allows(self, canonical: Seq<char>) -> bool {
        exists|k: int|
            0 <= k < self.allowed_prefixes@.len() && path_starts_with(
                canonical,
                #[trigger] self.allowed_prefixes@[k]@,
            )
    }

    /// Whether a canonical path lies under a registered directory.
    pub fn is_canonical_allowed(&self, canonical: &str) -> (r: bool)
        ensures
            r == self.allows(canonical@),
    {
        let mut i: usize = 0;
        while i < self.allowed_prefixes.len()
            invariant
                i <= self.allowed_prefixes.len(),
                forall|k: int|
                    0 <= k < i ==> !path_starts_with(canonical@, #[trigger] self.allowed_prefixes@[k]@),
            decreases self.allowed_prefixes.len() - i,
        {
            if starts_with_path(canonical, self.allowed_prefixes[i].as_str()) {
                return true;
            }
            i = i + 1;
        }
        false
    }

    /// The address at which the server serves a file.
    pub fn file_url(&self, file_path: &str) -> (r: String)
        ensures
            r@ == "http://127.0.0.1:"@ + crate::text::digits_of(self.port as nat) + "/serve?path="@
                + percent_encode(file_path@),
    {
        let mut buf: Vec<char> = Vec::new();
        push_str(&mut buf, "http://127.0.0.1:");
        push_digits(&mut buf, self.port as u64);
        push_str(&mut buf, "/serve?path=");
        let enc = encode_component(file_path);
        push_str(&mut buf, enc.as_str());
        string_of(&buf)
    }
}

/// `urlencoding::encode`: its documentation and source percent-encode
/// every UTF-8 byte except ASCII alphanumerics and `-`, `_`, `.`, `~`,
/// with upper-case hexadecimal, which is what `percent_encode` states.
#[verifier::external_body]
fn encode_component(s: &str) -> (r: String)
    ensures
        r@ == percent_encode(s@),
{
    urlencoding::encode(s).into_owned()
}

/// Web origins allowed to call the server: the application's webview and
/// local development servers.
pub open spec fn origin_allowed_spec(o: Seq<char>) -> bool {
    o == "tauri://localhost"@ || o == "http://tauri.localhost"@ || o == "https://tauri.localhost"@
        || starts_with_spec(o, "http://localhost:"@) || starts_with_spec(o, "http://127.0.0.1:"@)
}

pub fn origin_allowed(origin: &str) -> (r: bool)
    ensures
        r == origin_allowed_spec(origin@),
{
    str_eq(origin, "tauri://localhost") || str_eq(origin, "http://tauri.localhost") || str_eq(
        origin,
        "https://tauri.localhost",
    ) || str_starts_with(origin, "http://localhost:") || str_starts_with(origin, "http://127.0.0.1:")
}

/// The content type served for a lower-cased extension.
pub open spec fn content_type_for(ext: Seq<char>) -> Seq<char> {
    if ext == "mp4"@ || ext == "m4v"@ {
        "video/mp4"@
    } else if ext == "mkv"@ {
        "video/x-matroska"@
    } else if ext == "webm"@ {
        "video/webm"@
    } else if ext == "flv"@ {
        "video/x-flv"@
    } else if ext == "ts"@ {
        "video/mp2t"@
    } else if ext == "mov"@ {
        "video/quicktime"@
    } else if ext == "avi"@ {
        "video/x-msvideo"@
    } else if ext == "mp3"@ {
        "audio/mpeg"@
    } else if ext == "m4a"@ || ext == "aac"@ {
        "audio/mp4"@
    } else {
        "application/octet-stream"@
    }
}

/// The content type of a file by its extension (`None` when it has none
/// or it is not valid UTF-8), compared lower-cased.
pub fn content_type(extension: &Option<String>) -> (r: String)
    ensures
        r@ == content_type_for(unicode_lowercase(
            match extension {
                Some(e) => e@,
                None => Seq::empty(),
            },
        )),
{
    let raw: &str = match extension {
        Some(e) => e.as_str(),
        None => "",
    };
    proof {
        reveal_strlit("");
        let e: Seq<char> = match extension { Some(e) => e@, None => Seq::empty() };
        assert(raw@ == e);
    }
    let lower = crate::text::to_lowercase(raw);
    content_type_for_lower(lower.as_str())
}

/// The content type of a lower-cased extension.
pub fn content_type_for_lower(e: &str) -> (r: String)
    ensures
        r@ == content_type_for(e@),
{
    if str_eq(e, "mp4") || str_eq(e, "m4v") {
        "video/mp4".to_owned()
    } else if str_eq(e, "mkv") {
        "video/x-matroska".to_owned()
    } else if str_eq(e, "webm") {
        "video/webm".to_owned()
    } else if str_eq(e, "flv") {
        "video/x-flv".to_owned()
    } else if str_eq(e, "ts") {
        "video/mp2t".to_owned()
    } else if str_eq(e, "mov") {
        "video/quicktime".to_owned()
    } else if str_eq(e, "avi") {
        "video/x-msvideo".to_owned()
    } else if str_eq(e, "mp3") {
        "audio/mpeg".to_owned()
    } else if str_eq(e, "m4a") || str_eq(e, "aac") {
        "audio/mp4".to_owned()
    } else {
        "application/octet-stream".to_owned()
    }
}

} // verus!
