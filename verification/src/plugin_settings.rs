//! Plugin state kept in the settings store (whether a plugin is enabled,
//! its configuration values), the merged plugin listing, and how a call
//! to an external plugin is addressed and authenticated.

use vstd::prelude::*;
use crate::config::strs;
use crate::dashboard::set_setting_spec;
use crate::manifest::opt_view;
use crate::sql::{sql_escape, sql_escape_spec, escape_piece};
use crate::text::{chars_of, matches_at, push_str, string_of};

verus! {

/// The settings key that records whether plugin `id` is enabled.
pub open spec fn enabled_key_spec(id: Seq<char>) -> Seq<char> {
    "plugin:"@ + id + ":enabled"@
}

/// The plugin id inside a settings key of the form `plugin:{id}:enabled`.
pub open spec fn enabled_key_id(key: Seq<char>) -> Option<Seq<char>> {
    if key.len() >= 15 && key.subrange(0, 7) == "plugin:"@ && key.subrange(
        key.len() - 8,
        key.len() as int,
    ) == ":enabled"@ {
        Some(key.subrange(7, key.len() - 8))
    } else {
        None
    }
}

/// Reads the plugin id out of an `enabled` settings key.
pub fn enabled_plugin_id(key: &str) -> (r: Option<String>)
    ensures
        opt_view(r) == enabled_key_id(key@),
{
    proof {
        reveal_strlit("plugin:");
        reveal_strlit(":enabled");
    }
    let cs = chars_of(key);
    let pre = chars_of("plugin:");
    let suf = chars_of(":enabled");
    let n = cs.len();
    if n < 15 {
        return None;
    }
    if !matches_at(&cs, &pre, 0) {
        return None;
    }
    if !matches_at(&cs, &suf, n - 8) {
        return None;
    }
    let mut buf: Vec<char> = Vec::new();
    let mut i: usize = 7;
    while i < n - 8
        invariant
            n == cs.len(),
            n >= 15,
            7 <= i <= n - 8,
            buf@ == cs@.subrange(7, i as int),
        decreases n - 8 - i,
    {
        buf.push(cs[i]);
        i = i + 1;
        assert(buf@ == cs@.subrange(7, i as int));
    }
    Some(string_of(&buf))
}

/// The ids of the enabled plugins, in the order of their keys.
pub open spec fn enabled_ids_spec(keys: Seq<Seq<char>>) -> Seq<Seq<char>>
    decreases keys.len(),
{
    if keys.len() == 0 {
        Seq::empty()
    } else {
        enabled_ids_spec(keys.drop_last()) + match enabled_key_id(keys.last()) {
            Some(id) => seq![id],
            None => Seq::empty(),
        }
    }
}

/// The ids named by the `enabled` keys the settings store returned.
pub fn enabled_plugin_ids(keys: &Vec<String>) -> (r: Vec<String>)
    ensures
        strs(r@) == enabled_ids_spec(strs(keys@)),
{
    let mut r: Vec<String> = Vec::new();
    let mut i: usize = 0;
    while i < keys.len()
        invariant
            i <= keys.len(),
            strs(r@) == enabled_ids_spec(strs(keys@).take(i as int)),
        decreases keys.len() - i,
    {
        let ghost before = strs(r@);
        assert(strs(keys@).take(i + 1).drop_last() == strs(keys@).take(i as int));
        assert(strs(keys@).take(i + 1).last() == keys@[i as int]@);
        match enabled_plugin_id(keys[i].as_str()) {
            Some(id) => {
                r.push(id);
                assert(strs(r@) == before.push(r@[r.len() - 1]@));
            },
            None => {},
        }
        i = i + 1;
        assert(strs(r@) == enabled_ids_spec(strs(keys@).take(i as int)));
    }
    assert(strs(keys@).take(keys.len() as int) == strs(keys@));
    r
}

/// The query for the keys of the enabled plugins.
pub fn enabled_plugins_query() -> (r: String)
    ensures
        r@ == "SELECT key FROM settings_kv WHERE key LIKE 'plugin:%:enabled' AND value = 'true'"@,
{
    "SELECT key FROM settings_kv WHERE key LIKE 'plugin:%:enabled' AND value = 'true'".to_owned()
}

pub open spec fn flag_text(enabled: bool) -> Seq<char> {
    if enabled {
        "true"@
    } else {
        "false"@
    }
}

pub open spec fn enabled_flag_sql_spec(id: Seq<char>, enabled: bool) -> Seq<char> {
    "INSERT OR REPLACE INTO settings_kv (key, value) VALUES ('plugin:"@ + sql_escape_spec(id)
        + ":enabled', '"@ + flag_text(enabled) + "')"@
}

/// Records whether a plugin is enabled.
pub fn enabled_flag_sql(plugin_id: &str, enabled: bool) -> (r: String)
    ensures
        r@ == enabled_flag_sql_spec(plugin_id@, enabled),
{
    let mut b: Vec<char> = Vec::new();
    push_str(&mut b, "INSERT OR REPLACE INTO settings_kv (key, value) VALUES ('plugin:");
    let e = sql_escape(plugin_id);
    push_str(&mut b, e.as_str());
    push_str(&mut b, ":enabled', '");
    if enabled {
        push_str(&mut b, "true");
    } else {
        push_str(&mut b, "false");
    }
    push_str(&mut b, "')");
    string_of(&b)
}

/// The settings key under which plugin `id` keeps configuration value `key`.
pub open spec fn plugin_setting_key(id: Seq<char>, key: Seq<char>) -> Seq<char> {
    "plugin:"@ + id + ":"@ + key
}

pub open spec fn set_plugin_config_spec(id: Seq<char>, key: Seq<char>, value: Seq<char>) -> Seq<
    char,
> {
    "INSERT OR REPLACE INTO settings_kv (key, value) VALUES ('"@ + "plugin:"@ + sql_escape_spec(id)
        + ":"@ + sql_escape_spec(key) + "', '"@ + sql_escape_spec(value) + "')"@
}

/// Stores one configuration value of a plugin.
pub fn set_plugin_config_sql(plugin_id: &str, key: &str, value: &str) -> (r: String)
    ensures
        r@ == set_plugin_config_spec(plugin_id@, key@, value@),
{
    let mut b: Vec<char> = Vec::new();
    push_str(&mut b, "INSERT OR REPLACE INTO settings_kv (key, value) VALUES ('");
    push_str(&mut b, "plugin:");
    let ei = sql_escape(plugin_id);
    push_str(&mut b, ei.as_str());
    push_str(&mut b, ":");
    let ek = sql_escape(key);
    push_str(&mut b, ek.as_str());
    push_str(&mut b, "', '");
    let ev = sql_escape(value);
    push_str(&mut b, ev.as_str());
    push_str(&mut b, "')");
    string_of(&b)
}

/// The key prefix of a plugin's configuration values, as the lookup
/// writes it: the id with its quotes doubled.
pub open spec fn config_prefix_spec(id: Seq<char>) -> Seq<char> {
    "plugin:"@ + sql_escape_spec(id) + ":"@
}

pub fn plugin_config_prefix(plugin_id: &str) -> (r: String)
    ensures
        r@ == config_prefix_spec(plugin_id@),
{
    let mut b: Vec<char> = Vec::new();
    push_str(&mut b, "plugin:");
    let e = sql_escape(plugin_id);
    push_str(&mut b, e.as_str());
    push_str(&mut b, ":");
    string_of(&b)
}

pub open spec fn plugin_config_query_spec(prefix: Seq<char>) -> Seq<char> {
    "SELECT key, value FROM settings_kv WHERE key LIKE '"@ + prefix + "%'"@
}

/// The query for every setting whose key begins with `prefix`.
pub fn plugin_config_query(prefix: &str) -> (r: String)
    ensures
        r@ == plugin_config_query_spec(prefix@),
{
    let mut b: Vec<char> = Vec::new();
    push_str(&mut b, "SELECT key, value FROM settings_kv WHERE key LIKE '");
    push_str(&mut b, prefix);
    push_str(&mut b, "%'");
    string_of(&b)
}

pub open spec fn pair_views(v: Seq<(String, String)>) -> Seq<(Seq<char>, Seq<char>)> {
    v.map_values(|p: (String, String)| (p.0@, p.1@))
}

/// The rows whose key begins with `prefix`, the prefix taken off, in order.
pub open spec fn config_entries_spec(prefix: Seq<char>, rows: Seq<(Seq<char>, Seq<char>)>) -> Seq<
    (Seq<char>, Seq<char>),
>
    decreases rows.len(),
{
    if rows.len() == 0 {
        Seq::empty()
    } else {
        let row = rows.last();
        config_entries_spec(prefix, rows.drop_last()) + if prefix.len() <= row.0.len()
            && row.0.subrange(0, prefix.len() as int) == prefix {
            seq![(row.0.skip(prefix.len() as int), row.1)]
        } else {
            Seq::empty()
        }
    }
}

/// A plugin's configuration from the rows the lookup returned; a later
/// row of the same name replaces an earlier one where they are gathered.
pub fn plugin_config_entries(prefix: &str, rows: &Vec<(String, String)>) -> (r: Vec<
    (String, String),
>)
    ensures
        pair_views(r@) == config_entries_spec(prefix@, pair_views(rows@)),
{
    let pc = chars_of(prefix);
    let mut r: Vec<(String, String)> = Vec::new();
    let mut i: usize = 0;
    while i < rows.len()
        invariant
            i <= rows.len(),
            pc@ == prefix@,
            pair_views(r@) == config_entries_spec(prefix@, pair_views(rows@).take(i as int)),
        decreases rows.len() - i,
    {
        let ghost before = pair_views(r@);
        assert(pair_views(rows@).take(i + 1).drop_last() == pair_views(rows@).take(i as int));
        let kc = chars_of(rows[i].0.as_str());
        if pc.len() <= kc.len() && matches_at(&kc, &pc, 0) {
            let mut buf: Vec<char> = Vec::new();
            let mut j: usize = pc.len();
            while j < kc.len()
                invariant
                    pc.len() <= j <= kc.len(),
                    buf@ == kc@.subrange(pc.len() as int, j as int),
                decreases kc.len() - j,
            {
                buf.push(kc[j]);
                j = j + 1;
                assert(buf@ == kc@.subrange(pc.len() as int, j as int));
            }
            assert(buf@ == kc@.skip(pc.len() as int));
            r.push((string_of(&buf), rows[i].1.clone()));
            assert(pair_views(r@) == before.push(
                (kc@.skip(pc.len() as int), rows@[i as int].1@),
            ));
        }
        i = i + 1;
        assert(pair_views(r@) == config_entries_spec(prefix@, pair_views(rows@).take(i as int)));
    }
    assert(pair_views(rows@).take(rows.len() as int) == pair_views(rows@));
    r
}


proof fn lemma_escape_concat(a: Seq<char>, b: Seq<char>)
    ensures
        sql_escape_spec(a + b) == sql_escape_spec(a) + sql_escape_spec(b),
    decreases b.len(),
{
    if b.len() == 0 {
        assert(a + b == a);
        assert(sql_escape_spec(b) == Seq::<char>::empty());
        assert(sql_escape_spec(a) + sql_escape_spec(b) == sql_escape_spec(a));
    } else {
        lemma_escape_concat(a, b.drop_last());
        assert((a + b).drop_last() == a + b.drop_last());
        assert((a + b).last() == b.last());
        assert(sql_escape_spec(a + b) == sql_escape_spec(a + b.drop_last()) + escape_piece(b.last()));
        assert(sql_escape_spec(b) == sql_escape_spec(b.drop_last()) + escape_piece(b.last()));
    }
}

proof fn lemma_escape_plain(s: Seq<char>)
    requires
        forall|i: int| 0 <= i < s.len() ==> s[i] != '\'',
    ensures
        sql_escape_spec(s) == s,
    decreases s.len(),
{
    if s.len() > 0 {
        lemma_escape_plain(s.drop_last());
        assert(s.drop_last().push(s.last()) == s);
    }
}

/// Enabling or disabling a plugin is an ordinary settings write under the
/// key `plugin:{id}:enabled`, and the listing of enabled plugins reads
/// exactly that id back out of the key.
pub proof fn law_enabled_key_round_trip(id: Seq<char>, enabled: bool)
    ensures
        enabled_key_id(enabled_key_spec(id)) == Some(id),
        enabled_flag_sql_spec(id, enabled) == set_setting_spec(
            enabled_key_spec(id),
            flag_text(enabled),
        ),
{
    reveal_strlit("plugin:");
    reveal_strlit(":enabled");
    reveal_strlit("true");
    reveal_strlit("false");
    let k = enabled_key_spec(id);
    assert(k.subrange(0, 7) == "plugin:"@);
    assert(k.subrange(k.len() - 8, k.len() as int) == ":enabled"@);
    assert(k.subrange(7, k.len() - 8) == id);
    lemma_escape_concat("plugin:"@ + id, ":enabled"@);
    lemma_escape_concat("plugin:"@, id);
    lemma_escape_plain("plugin:"@);
    lemma_escape_plain(":enabled"@);
    lemma_escape_plain(flag_text(enabled));
    reveal_strlit("INSERT OR REPLACE INTO settings_kv (key, value) VALUES ('plugin:");
    reveal_strlit(":enabled', '");
    reveal_strlit("')");
    reveal_strlit("INSERT OR REPLACE INTO settings_kv (key, value) VALUES (");
    reveal_strlit("'");
    reveal_strlit(", ");
    reveal_strlit(")");
    assert(enabled_flag_sql_spec(id, enabled) =~= set_setting_spec(k, flag_text(enabled)));
}

/// A plugin's configuration value is an ordinary settings write under the
/// key `plugin:{id}:{key}`.
pub proof fn law_plugin_config_is_setting(id: Seq<char>, key: Seq<char>, value: Seq<char>)
    ensures
        set_plugin_config_spec(id, key, value) == set_setting_spec(
            plugin_setting_key(id, key),
            value,
        ),
{
    reveal_strlit("plugin:");
    reveal_strlit(":");
    lemma_escape_concat("plugin:"@ + id + ":"@, key);
    lemma_escape_concat("plugin:"@ + id, ":"@);
    lemma_escape_concat("plugin:"@, id);
    lemma_escape_plain("plugin:"@);
    lemma_escape_plain(":"@);
    reveal_strlit("INSERT OR REPLACE INTO settings_kv (key, value) VALUES ('");
    reveal_strlit("', '");
    reveal_strlit("')");
    reveal_strlit("INSERT OR REPLACE INTO settings_kv (key, value) VALUES (");
    reveal_strlit("'");
    reveal_strlit(", ");
    reveal_strlit(")");
    assert(set_plugin_config_spec(id, key, value) =~= set_setting_spec(
        plugin_setting_key(id, key),
        value,
    ));
}

/// What a plugin's configuration lookup gives back of a value stored for
/// it: the value under its own name. Plugin ids with a single quote are
/// left out: the lookup matches keys against the id with its quotes
/// doubled, so such a plugin never finds its values.
pub proof fn law_config_read_back(id: Seq<char>, key: Seq<char>, value: Seq<char>)
    requires
        forall|i: int| 0 <= i < id.len() ==> id[i] != '\'',
    ensures
        config_entries_spec(config_prefix_spec(id), seq![(plugin_setting_key(id, key), value)])
            == seq![(key, value)],
{
    lemma_escape_plain(id);
    let p = config_prefix_spec(id);
    let k = plugin_setting_key(id, key);
    assert(k == p + key);
    assert(k.subrange(0, p.len() as int) == p);
    assert(k.skip(p.len() as int) == key);
    let rows = seq![(k, value)];
    assert(rows.drop_last().len() == 0);
    assert(config_entries_spec(p, rows.drop_last()) == Seq::<(Seq<char>, Seq<char>)>::empty());
}


/// Positions of the external plugins that join the listing after the
/// builtin ones: an external plugin is listed unless a builtin plugin or
/// an earlier external one already has its id.
pub open spec fn kept_externals(b: Seq<Seq<char>>, e: Seq<Seq<char>>) -> Seq<int>
    decreases e.len(),
{
    if e.len() == 0 {
        Seq::empty()
    } else {
        kept_externals(b, e.drop_last()) + if !b.contains(e.last()) && !e.drop_last().contains(
            e.last(),
        ) {
            seq![e.len() - 1]
        } else {
            Seq::empty()
        }
    }
}

/// The ids of the merged listing: the builtin ones, then the kept
/// external ones.
pub open spec fn listed_ids(b: Seq<Seq<char>>, e: Seq<Seq<char>>) -> Seq<Seq<char>> {
    b + kept_externals(b, e).map_values(|i: int| e[i])
}

fn contains_id(v: &Vec<String>, upto: usize, s: &str) -> (r: bool)
    requires
        upto <= v.len(),
    ensures
        r == strs(v@).take(upto as int).contains(s@),
{
    let mut j: usize = 0;
    while j < upto
        invariant
            j <= upto <= v.len(),
            forall|k: int| 0 <= k < j ==> v@[k]@ != s@,
        decreases upto - j,
    {
        if crate::text::str_eq(v[j].as_str(), s) {
            assert(strs(v@).take(upto as int)[j as int] == s@);
            return true;
        }
        j = j + 1;
    }
    assert forall|k: int| 0 <= k < upto implies strs(v@).take(upto as int)[k] != s@ by {
        assert(strs(v@).take(upto as int)[k] == v@[k]@);
    }
    false
}

/// Which external plugins join the listing, by position.
pub fn external_plugins_kept(builtin_ids: &Vec<String>, external_ids: &Vec<String>) -> (r: Vec<
    usize,
>)
    ensures
        r@.map_values(|i: usize| i as int) == kept_externals(
            strs(builtin_ids@),
            strs(external_ids@),
        ),
{
    let ghost bs = strs(builtin_ids@);
    let ghost es = strs(external_ids@);
    let mut r: Vec<usize> = Vec::new();
    let mut i: usize = 0;
    while i < external_ids.len()
        invariant
            i <= external_ids.len(),
            bs == strs(builtin_ids@),
            es == strs(external_ids@),
            r@.map_values(|k: usize| k as int) == kept_externals(bs, es.take(i as int)),
        decreases external_ids.len() - i,
    {
        let ghost before = r@.map_values(|k: usize| k as int);
        assert(es.take(i + 1).drop_last() == es.take(i as int));
        assert(es.take(i + 1).last() == external_ids@[i as int]@);
        assert(bs.take(builtin_ids.len() as int) == bs);
        let in_builtin = contains_id(builtin_ids, builtin_ids.len(), external_ids[i].as_str());
        let earlier = contains_id(external_ids, i, external_ids[i].as_str());
        if !in_builtin && !earlier {
            r.push(i);
            assert(r@.map_values(|k: usize| k as int) == before.push(i as int));
        }
        i = i + 1;
        assert(r@.map_values(|k: usize| k as int) == kept_externals(bs, es.take(i as int)));
    }
    assert(es.take(external_ids.len() as int) == es);
    r
}

proof fn lemma_kept_in_range(b: Seq<Seq<char>>, e: Seq<Seq<char>>)
    ensures
        forall|k: int|
            0 <= k < kept_externals(b, e).len() ==> 0 <= #[trigger] kept_externals(b, e)[k]
                < e.len(),
    decreases e.len(),
{
    if e.len() > 0 {
        let e0 = e.drop_last();
        lemma_kept_in_range(b, e0);
        let k0 = kept_externals(b, e0);
        assert forall|k: int| 0 <= k < kept_externals(b, e).len() implies 0
            <= #[trigger] kept_externals(b, e)[k] < e.len() by {
            if k < k0.len() {
                assert(kept_externals(b, e)[k] == k0[k]);
            }
        }
    }
}

/// The merged plugin listing keeps every builtin plugin first and in its
/// order, lists each id of either source, and lists no id twice when the
/// builtin ids are distinct: a builtin plugin shadows an external one of
/// the same id.
pub proof fn law_listing_ids_unique(b: Seq<Seq<char>>, e: Seq<Seq<char>>)
    requires
        b.no_duplicates(),
    ensures
        listed_ids(b, e).no_duplicates(),
        listed_ids(b, e).take(b.len() as int) == b,
        forall|x: Seq<char>| #[trigger]
            listed_ids(b, e).contains(x) <==> (b.contains(x) || e.contains(x)),
    decreases e.len(),
{
    let l = listed_ids(b, e);
    assert(l.take(b.len() as int) =~= b);
    if e.len() == 0 {
        assert(kept_externals(b, e) =~= Seq::<int>::empty());
        assert(l =~= b);
    } else {
        let e0 = e.drop_last();
        let x = e.last();
        law_listing_ids_unique(b, e0);
        lemma_kept_in_range(b, e0);
        let l0 = listed_ids(b, e0);
        let k0 = kept_externals(b, e0);
        assert(k0.map_values(|i: int| e[i]) =~= k0.map_values(|i: int| e0[i]));
        let keep = !b.contains(x) && !e0.contains(x);
        if keep {
            assert(kept_externals(b, e) == k0.push(e.len() - 1));
            assert(l =~= l0.push(x));
            assert(!l0.contains(x));
        } else {
            assert(kept_externals(b, e) =~= k0);
            assert(l =~= l0);
        }
        assert forall|y: Seq<char>| l0.contains(y) implies #[trigger] l.contains(y) by {
            let j = choose|j: int| 0 <= j < l0.len() && l0[j] == y;
            assert(l[j] == y);
        }
        assert forall|y: Seq<char>| #[trigger] l.contains(y) <==> (b.contains(y) || e.contains(y)) by {
            if l0.contains(y) {
                assert(l.contains(y));
                if e0.contains(y) {
                    let j = choose|j: int| 0 <= j < e0.len() && e0[j] == y;
                    assert(e[j] == y);
                }
            }
            if b.contains(y) {
                assert(l0.contains(y));
            }
            if e.contains(y) {
                let j = choose|j: int| 0 <= j < e.len() && e[j] == y;
                if j < e.len() - 1 {
                    assert(e0[j] == y);
                    assert(l0.contains(y));
                } else if keep {
                    assert(l[l.len() - 1] == y);
                } else {
                    assert(l0.contains(y));
                }
            }
            if e0.contains(y) {
                let j = choose|j: int| 0 <= j < e0.len() && e0[j] == y;
                assert(e[j] == y);
            }
            if l.contains(y) && !l0.contains(y) {
                assert(keep);
                let j = choose|j: int| 0 <= j < l.len() && l[j] == y;
                assert(j == l.len() - 1);
                assert(y == x);
                assert(e[e.len() - 1] == y);
            }
        }
    }
}

/// The connection and credentials an external plugin call carries in its
/// payload; these fields are taken out of what the plugin receives.
pub struct PluginCallAuth {
    pub base_url: Option<String>,
    pub api_key: Option<String>,
    pub basic_user: Option<String>,
    pub basic_pass: Option<String>,
}

pub open spec fn is_auth_field_spec(k: Seq<char>) -> bool {
    k == "base_url"@ || k == "api_key"@ || k == "basic_user"@ || k == "basic_pass"@
}

/// Whether a payload field is one of the call's connection fields.
pub fn is_auth_field(key: &str) -> (r: bool)
    ensures
        r == is_auth_field_spec(key@),
{
    crate::text::str_eq(key, "base_url") || crate::text::str_eq(key, "api_key")
        || crate::text::str_eq(key, "basic_user") || crate::text::str_eq(key, "basic_pass")
}

/// The payload keys the plugin receives: all but the connection fields,
/// in order.
pub open spec fn body_keys_spec(keys: Seq<Seq<char>>) -> Seq<Seq<char>>
    decreases keys.len(),
{
    if keys.len() == 0 {
        Seq::empty()
    } else {
        let rest = body_keys_spec(keys.drop_last());
        if is_auth_field_spec(keys.last()) {
            rest
        } else {
            rest.push(keys.last())
        }
    }
}

/// Which of a payload's keys are forwarded in the call's body (every key
/// but `base_url`, `api_key`, `basic_user` and `basic_pass`).
pub fn call_body_keys(keys: &Vec<String>) -> (r: Vec<String>)
    ensures
        strs(r@) == body_keys_spec(strs(keys@)),
{
    let mut out: Vec<String> = Vec::new();
    let mut i: usize = 0;
    while i < keys.len()
        invariant
            i <= keys.len(),
            strs(out@) == body_keys_spec(strs(keys@).take(i as int)),
        decreases keys.len() - i,
    {
        let ghost ks = strs(keys@);
        assert(ks.take(i + 1).drop_last() == ks.take(i as int));
        assert(ks.take(i + 1).last() == keys@[i as int]@);
        if !is_auth_field(keys[i].as_str()) {
            out.push(keys[i].clone());
            assert(strs(out@) == strs(out@).drop_last().push(keys@[i as int]@));
        }
        i = i + 1;
    }
    assert(strs(keys@).take(keys.len() as int) == strs(keys@));
    out
}

/// Forwarding keeps exactly the keys that are not connection fields: a key
/// is in the body if and only if it is in the payload and is not one of
/// the four connection fields.
pub proof fn law_body_drops_only_connection_fields(keys: Seq<Seq<char>>, k: Seq<char>)
    ensures
        body_keys_spec(keys).contains(k) <==> (keys.contains(k) && !is_auth_field_spec(k)),
    decreases keys.len(),
{
    if keys.len() > 0 {
        law_body_drops_only_connection_fields(keys.drop_last(), k);
        let rest = body_keys_spec(keys.drop_last());
        assert(keys =~= keys.drop_last().push(keys.last()));
        if keys.contains(k) && !keys.drop_last().contains(k) {
            let j = choose|j: int| 0 <= j < keys.len() && keys[j] == k;
            if j < keys.len() - 1 {
                assert(keys.drop_last()[j] == k);
            }
        }
        if keys.drop_last().contains(k) {
            let j = choose|j: int| 0 <= j < keys.drop_last().len() && keys.drop_last()[j] == k;
            assert(keys[j] == k);
        }
        if !is_auth_field_spec(keys.last()) {
            assert(rest.push(keys.last())[rest.len() as int] == keys.last());
            if rest.contains(k) {
                let j = choose|j: int| 0 <= j < rest.len() && rest[j] == k;
                assert(rest.push(keys.last())[j] == k);
            }
            if rest.push(keys.last()).contains(k) {
                let j = choose|j: int| 0 <= j < rest.len() + 1 && rest.push(keys.last())[j] == k;
                if j < rest.len() {
                    assert(rest[j] == k);
                }
            }
        }
    }
}

/// Where a call goes when the payload names no base URL.
pub open spec fn default_plugin_base() -> Seq<char> {
    "http://127.0.0.1:2007"@
}

/// `s` without leading `/`s.
pub open spec fn trim_start_slashes(s: Seq<char>) -> Seq<char>
    decreases s.len(),
{
    if s.len() > 0 && s[0] == '/' {
        trim_start_slashes(s.skip(1))
    } else {
        s
    }
}

pub open spec fn plugin_call_url_spec(base_url: Option<Seq<char>>, action: Seq<char>) -> Seq<char> {
    crate::plugins::trim_end_slashes(
        match base_url {
            Some(b) => b,
            None => default_plugin_base(),
        },
    ) + "/"@ + trim_start_slashes(action)
}

/// The address of an external plugin action: the base URL without
/// trailing slashes, one slash, the action without leading slashes.
pub fn plugin_call_url(base_url: &Option<String>, action: &str) -> (r: String)
    ensures
        r@ == plugin_call_url_spec(opt_view(*base_url), action@),
{
    let head = match base_url {
        Some(b) => crate::plugins::endpoint_url(b.as_str(), "/"),
        None => crate::plugins::endpoint_url("http://127.0.0.1:2007", "/"),
    };
    let cs = chars_of(action);
    let mut n: usize = 0;
    assert(cs@.skip(0) == cs@);
    while n < cs.len() && cs[n] == '/'
        invariant
            n <= cs.len(),
            trim_start_slashes(cs@) == trim_start_slashes(cs@.skip(n as int)),
        decreases cs.len() - n,
    {
        assert(cs@.skip(n as int).skip(1) == cs@.skip(n + 1));
        n = n + 1;
    }
    let mut buf = chars_of(head.as_str());
    let mut i: usize = n;
    let ghost start = buf@;
    while i < cs.len()
        invariant
            n <= i <= cs.len(),
            buf@ == start + cs@.subrange(n as int, i as int),
        decreases cs.len() - i,
    {
        buf.push(cs[i]);
        i = i + 1;
        assert(buf@ == start + cs@.subrange(n as int, i as int));
    }
    assert(cs@.subrange(n as int, cs.len() as int) == cs@.skip(n as int));
    string_of(&buf)
}

pub open spec fn plugin_call_headers_spec(a: PluginCallAuth) -> Seq<(Seq<char>, Seq<char>)> {
    (match a.api_key {
        Some(k) => if k@.len() > 0 {
            seq![("X-API-Key"@, k@)]
        } else {
            Seq::empty()
        },
        None => Seq::empty(),
    }) + (match (a.basic_user, a.basic_pass) {
        (Some(u), Some(p)) => if u@.len() > 0 {
            seq![
                (
                    "Authorization"@,
                    "Basic "@ + crate::encoding::base64(crate::encoding::utf8(u@ + ":"@ + p@)),
                ),
            ]
        } else {
            Seq::empty()
        },
        _ => Seq::empty(),
    })
}

/// The headers of an external plugin call: the API key when a non-empty
/// one is given, and Basic authentication when both user and password
/// are given and the user is not empty.
pub fn plugin_call_headers(auth: &PluginCallAuth) -> (r: Vec<(String, String)>)
    ensures
        crate::plugins::header_views(r@) == plugin_call_headers_spec(*auth),
{
    let mut r: Vec<(String, String)> = Vec::new();
    match &auth.api_key {
        Some(k) => {
            if !k.as_str().is_empty() {
                r.push(("X-API-Key".to_owned(), k.clone()));
            }
        },
        None => {},
    }
    let ghost first = crate::plugins::header_views(r@);
    match (&auth.basic_user, &auth.basic_pass) {
        (Some(u), Some(p)) => {
            if !u.as_str().is_empty() {
                let mut cred = u.clone();
                cred.append(":");
                cred.append(p.as_str());
                let mut value = "Basic ".to_owned();
                let b = crate::encoding::base64_encode(cred.as_str());
                value.append(b.as_str());
                r.push(("Authorization".to_owned(), value));
                assert(crate::plugins::header_views(r@) == first.push(("Authorization"@, value@)));
            }
        },
        _ => {},
    }
    r
}

} // verus!
