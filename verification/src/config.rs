//! Application configuration: defaults, database path resolution and the
//! most-recently-used workspace list.

use vstd::prelude::*;

verus! {

/// Settings under `[general]`.
pub struct GeneralConfig {
    /// Database file path, relative to the config directory or absolute.
    pub database_path: String,
    /// Log level: trace, debug, info, warn, error.
    pub log_level: String,
}

/// Settings under `[ffmpeg]`; an empty path means auto-detect.
pub struct FfmpegConfig {
    pub ffmpeg_path: String,
    pub ffprobe_path: String,
}

/// Settings under `[workspaces]`.
pub struct WorkspacesConfig {
    /// Recently opened workspace paths, most recent first.
    pub recent: Vec<String>,
}

/// Settings under `[tools]`; an empty path means auto-detect.
pub struct ToolsConfig {
    pub danmaku_factory_path: String,
}

/// Settings under `[network]`.
pub struct NetworkConfig {
    /// HTTP proxy for dependency downloads; empty means none.
    pub proxy_url: String,
}

/// The whole `config.toml`.
pub struct AppConfig {
    pub general: GeneralConfig,
    pub ffmpeg: FfmpegConfig,
    pub workspaces: WorkspacesConfig,
    pub tools: ToolsConfig,
    pub network: NetworkConfig,
}

/// Most recent workspaces kept.
pub const MAX_RECENT_WORKSPACES: usize = 20;

pub open spec fn strs(v: Seq<String>) -> Seq<Seq<char>> {
    v.map_values(|s: String| s@)
}

/// `s` without any element equal to `p`, order kept.
pub open spec fn without(s: Seq<Seq<char>>, p: Seq<char>) -> Seq<Seq<char>>
    decreases s.len(),
{
    if s.len() == 0 {
        Seq::empty()
    } else if s.last() == p {
        without(s.drop_last(), p)
    } else {
        without(s.drop_last(), p).push(s.last())
    }
}

/// The recent list after opening `p`: `p` first, earlier entries after it
/// without `p`, at most twenty entries.
pub open spec fn recent_after_add(s: Seq<Seq<char>>, p: Seq<char>) -> Seq<Seq<char>> {
    let full = seq![p] + without(s, p);
    if full.len() > MAX_RECENT_WORKSPACES { full.take(MAX_RECENT_WORKSPACES as int) } else { full }
}

pub open spec fn default_database_path_spec() -> Seq<char> {
    "data.db"@
}

pub open spec fn default_log_level_spec() -> Seq<char> {
    "info"@
}

pub fn default_database_path() -> (r: String)
    ensures
        r@ == default_database_path_spec(),
{
    "data.db".to_owned()
}

pub fn default_log_level() -> (r: String)
    ensures
        r@ == default_log_level_spec(),
{
    "info".to_owned()
}

impl Default for GeneralConfig {
    fn default() -> (r: Self)
        ensures
            r.database_path@ == default_database_path_spec(),
            r.log_level@ == default_log_level_spec(),
    {
        GeneralConfig { database_path: default_database_path(), log_level: default_log_level() }
    }
}

impl Default for FfmpegConfig {
    fn default() -> (r: Self)
        ensures
            r.ffmpeg_path@ == Seq::<char>::empty(),
            r.ffprobe_path@ == Seq::<char>::empty(),
    {
        FfmpegConfig { ffmpeg_path: String::new(), ffprobe_path: String::new() }
    }
}

impl Default for WorkspacesConfig {
    fn default() -> (r: Self)
        ensures
            r.recent@.len() == 0,
    {
        WorkspacesConfig { recent: Vec::new() }
    }
}

impl Default for ToolsConfig {
    fn default() -> (r: Self)
        ensures
            r.danmaku_factory_path@ == Seq::<char>::empty(),
    {
        ToolsConfig { danmaku_factory_path: String::new() }
    }
}

impl Default for NetworkConfig {
    fn default() -> (r: Self)
        ensures
            r.proxy_url@ == Seq::<char>::empty(),
    {
        NetworkConfig { proxy_url: String::new() }
    }
}

impl Default for AppConfig {
    fn default() -> (r: Self)
        ensures
            r.general.database_path@ == default_database_path_spec(),
            r.general.log_level@ == default_log_level_spec(),
            r.ffmpeg.ffmpeg_path@ == Seq::<char>::empty(),
            r.ffmpeg.ffprobe_path@ == Seq::<char>::empty(),
            r.workspaces.recent@.len() == 0,
            r.tools.danmaku_factory_path@ == Seq::<char>::empty(),
            r.network.proxy_url@ == Seq::<char>::empty(),
    {
        AppConfig {
            general: GeneralConfig::default(),
            ffmpeg: FfmpegConfig::default(),
            workspaces: WorkspacesConfig::default(),
            tools: ToolsConfig::default(),
            network: NetworkConfig::default(),
        }
    }
}

/// `Path::join` on Unix: an absolute `rel` replaces `base`; otherwise a `/`
/// is inserted unless `base` is empty or already ends with one.
pub open spec fn path_join(base: Seq<char>, rel: Seq<char>) -> Seq<char> {
    if rel.len() > 0 && rel[0] == '/' {
        rel
    } else if base.len() == 0 || base.last() == '/' {
        base + rel
    } else {
        base + seq!['/'] + rel
    }
}

/// Joins two paths the way `Path::join` does on Unix.
pub fn join_path(base: &str, rel: &str) -> (r: String)
    ensures
        r@ == path_join(base@, rel@),
{
    let b = crate::text::chars_of(base);
    let r = crate::text::chars_of(rel);
    let mut out: Vec<char> = Vec::new();
    if r.len() > 0 && r[0] == '/' {
        crate::text::push_all(&mut out, &r);
    } else {
        crate::text::push_all(&mut out, &b);
        if b.len() > 0 && b[b.len() - 1] != '/' {
            out.push('/');
        }
        crate::text::push_all(&mut out, &r);
    }
    crate::text::string_of(&out)
}

/// Removes every entry equal to `path`, keeping the order of the rest.
pub fn retain_other(list: &Vec<String>, path: &str) -> (r: Vec<String>)
    ensures
        strs(r@) == without(strs(list@), path@),
{
    let target = path.to_owned();
    let mut out: Vec<String> = Vec::new();
    let mut i: usize = 0;
    while i < list.len()
        invariant
            i <= list.len(),
            target@ == path@,
            strs(out@) == without(strs(list@.take(i as int)), path@),
        decreases list.len() - i,
    {
        let ghost pre = strs(list@.take(i as int));
        let ghost nxt = strs(list@.take(i + 1));
        assert(nxt.drop_last() == pre);
        assert(nxt.last() == list@[i as int]@);
        if list[i] != target {
            out.push(list[i].clone());
            assert(strs(out@) == strs(out@).drop_last().push(list@[i as int]@));
        }
        i = i + 1;
    }
    assert(list@.take(list.len() as int) == list@);
    out
}

impl AppConfig {
    /// Resolves the database path: absolute as given, relative under `config_dir`.
    pub fn resolve_db_path(&self, config_dir: &str) -> (r: String)
        ensures
            r@ == path_join(config_dir@, self.general.database_path@),
    {
        join_path(config_dir, self.general.database_path.as_str())
    }

    /// Moves `path` to the front of the recent list (deduplicated, at most twenty).
    pub fn add_recent_workspace(&mut self, path: &str)
        ensures
            strs(final(self).workspaces.recent@) == recent_after_add(strs(old(self).workspaces.recent@), path@),
            final(self).general == old(self).general,
            final(self).ffmpeg == old(self).ffmpeg,
            final(self).tools == old(self).tools,
            final(self).network == old(self).network,
    {
        let mut kept = retain_other(&self.workspaces.recent, path);
        let ghost rest = strs(kept@);
        kept.insert(0, path.to_owned());
        assert(strs(kept@) == seq![path@] + rest);
        kept.truncate(MAX_RECENT_WORKSPACES);
        assert(strs(kept@) == recent_after_add(strs(old(self).workspaces.recent@), path@));
        self.workspaces.recent = kept;
    }

    /// Removes `path` from the recent list.
    pub fn remove_recent_workspace(&mut self, path: &str)
        ensures
            strs(final(self).workspaces.recent@) == without(strs(old(self).workspaces.recent@), path@),
            final(self).general == old(self).general,
            final(self).ffmpeg == old(self).ffmpeg,
            final(self).tools == old(self).tools,
            final(self).network == old(self).network,
    {
        let kept = retain_other(&self.workspaces.recent, path);
        self.workspaces.recent = kept;
    }
}


pub open spec fn no_dup(s: Seq<Seq<char>>) -> bool {
    forall|i: int, j: int| 0 <= i < s.len() && 0 <= j < s.len() && i != j ==> s[i] != s[j]
}

proof fn lemma_without_facts(s: Seq<Seq<char>>, p: Seq<char>)
    ensures
        !without(s, p).contains(p),
        without(s, p).len() <= s.len(),
        forall|x: Seq<char>| without(s, p).contains(x) ==> s.contains(x),
        !s.contains(p) ==> without(s, p) == s,
        no_dup(s) ==> no_dup(without(s, p)),
    decreases s.len(),
{
    if s.len() > 0 {
        let r = without(s.drop_last(), p);
        lemma_without_facts(s.drop_last(), p);
        assert forall|x: Seq<char>| s.drop_last().contains(x) implies s.contains(x) by {
            let k = choose|k: int| 0 <= k < s.drop_last().len() && s.drop_last()[k] == x;
            assert(s[k] == x);
        }
        if s.last() != p {
            let w = r.push(s.last());
            assert forall|x: Seq<char>| w.contains(x) implies s.contains(x) by {
                let k = choose|k: int| 0 <= k < w.len() && w[k] == x;
                if k == r.len() {
                    assert(s[s.len() - 1] == x);
                } else {
                    assert(r[k] == x);
                }
            }
            assert(!w.contains(p)) by {
                if w.contains(p) {
                    let k = choose|k: int| 0 <= k < w.len() && w[k] == p;
                    if k < r.len() {
                        assert(r[k] == p);
                    }
                }
            }
            if !s.contains(p) {
                assert(!s.drop_last().contains(p)) by {
                    if s.drop_last().contains(p) {
                        let k = choose|k: int| 0 <= k < s.drop_last().len() && s.drop_last()[k] == p;
                        assert(s[k] == p);
                    }
                }
                assert(w == s.drop_last().push(s.last()));
                assert(s.drop_last().push(s.last()) == s);
            }
            if no_dup(s) {
                assert(no_dup(s.drop_last())) by {
                    assert forall|i: int, j: int|
                        0 <= i < s.drop_last().len() && 0 <= j < s.drop_last().len() && i != j
                            implies s.drop_last()[i] != s.drop_last()[j] by {
                        assert(s[i] != s[j]);
                    }
                }
                assert forall|i: int, j: int| 0 <= i < w.len() && 0 <= j < w.len() && i != j implies w[i] != w[j] by {
                    if i == r.len() {
                        assert(r.contains(r[j]));
                        assert(s.drop_last().contains(r[j]));
                        let k = choose|k: int| 0 <= k < s.drop_last().len() && s.drop_last()[k] == r[j];
                        assert(s[k] != s[s.len() - 1]);
                    } else if j == r.len() {
                        assert(r.contains(r[i]));
                        assert(s.drop_last().contains(r[i]));
                        let k = choose|k: int| 0 <= k < s.drop_last().len() && s.drop_last()[k] == r[i];
                        assert(s[k] != s[s.len() - 1]);
                    }
                }
            }
        } else {
            assert(s.contains(p)) by {
                assert(s[s.len() - 1] == p);
            }
            if no_dup(s) {
                assert(no_dup(s.drop_last())) by {
                    assert forall|i: int, j: int|
                        0 <= i < s.drop_last().len() && 0 <= j < s.drop_last().len() && i != j
                            implies s.drop_last()[i] != s.drop_last()[j] by {
                        assert(s[i] != s[j]);
                    }
                }
            }
        }
    }
}

proof fn lemma_without_front(t: Seq<Seq<char>>, p: Seq<char>)
    ensures
        without(seq![p] + t, p) == without(t, p),
    decreases t.len(),
{
    let u = seq![p] + t;
    if t.len() == 0 {
        assert(u.drop_last() == Seq::<Seq<char>>::empty());
        assert(u.last() == p);
        assert(without(u, p) == without(u.drop_last(), p));
        assert(without(u, p) == Seq::<Seq<char>>::empty());
    } else {
        lemma_without_front(t.drop_last(), p);
        assert(u.drop_last() == seq![p] + t.drop_last());
        assert(u.last() == t.last());
    }
}

/// Opening a workspace puts it first, keeps it only once, and leaves at most
/// twenty entries; when the list had no duplicates, it still has none.
pub proof fn law_add_recent_front_unique(s: Seq<Seq<char>>, p: Seq<char>)
    ensures
        recent_after_add(s, p).len() >= 1,
        recent_after_add(s, p)[0] == p,
        recent_after_add(s, p).len() <= MAX_RECENT_WORKSPACES,
        forall|k: int| 1 <= k < recent_after_add(s, p).len() ==> recent_after_add(s, p)[k] != p,
        forall|x: Seq<char>| #[trigger] recent_after_add(s, p).contains(x) ==> x == p || s.contains(x),
        no_dup(s) ==> no_dup(recent_after_add(s, p)),
{
    lemma_without_facts(s, p);
    let w = without(s, p);
    let full = seq![p] + w;
    let r = recent_after_add(s, p);
    assert forall|k: int| 1 <= k < r.len() implies r[k] != p by {
        assert(r[k] == w[k - 1]);
        assert(w.contains(w[k - 1]));
    }
    assert forall|x: Seq<char>| #[trigger] r.contains(x) implies x == p || s.contains(x) by {
        let k = choose|k: int| 0 <= k < r.len() && r[k] == x;
        if k > 0 {
            assert(w[k - 1] == x);
            assert(w.contains(x));
        }
    }
    if no_dup(s) {
        assert forall|i: int, j: int| 0 <= i < r.len() && 0 <= j < r.len() && i != j implies r[i] != r[j] by {
            if i > 0 && j > 0 {
                assert(r[i] == w[i - 1] && r[j] == w[j - 1]);
            }
        }
    }
}

/// Opening the same workspace twice in a row is the same as opening it once.
pub proof fn law_add_recent_idempotent(s: Seq<Seq<char>>, p: Seq<char>)
    ensures
        recent_after_add(recent_after_add(s, p), p) == recent_after_add(s, p),
{
    let r = recent_after_add(s, p);
    lemma_without_facts(s, p);
    let w = without(s, p);
    let tail = r.subrange(1, r.len() as int);
    assert(r == seq![p] + tail);
    assert(!tail.contains(p)) by {
        if tail.contains(p) {
            let k = choose|k: int| 0 <= k < tail.len() && tail[k] == p;
            assert(w[k] == p);
            assert(w.contains(p));
        }
    }
    lemma_without_front(tail, p);
    lemma_without_facts(tail, p);
    assert(without(r, p) == tail);
}

/// Removing a workspace leaves no entry for it, touches a list without it not
/// at all, and doing it twice equals doing it once.
pub proof fn law_remove_recent(s: Seq<Seq<char>>, p: Seq<char>)
    ensures
        !without(s, p).contains(p),
        !s.contains(p) ==> without(s, p) == s,
        without(without(s, p), p) == without(s, p),
        without(s, p).len() <= s.len(),
{
    lemma_without_facts(s, p);
    lemma_without_facts(without(s, p), p);
}

} // verus!
