//! Tags on videos: their records, and the statements that create, edit,
//! delete and assign them.

use vstd::prelude::*;
use crate::config::strs;
use crate::manifest::opt_view;
use crate::text::{
    chars_of, contains_run, int_text, join_strings, join_with, push_int, push_str, str_contains,
    string_of, trim_chars, trim_spec,
};
use crate::workspaces::quoted;

verus! {

pub struct TagInfo {
    pub id: i64,
    pub name: String,
    pub color: Option<String>,
}

pub struct CreateTagRequest {
    pub name: String,
    pub color: Option<String>,
}

pub struct UpdateTagRequest {
    pub id: i64,
    pub name: Option<String>,
    pub color: Option<String>,
}

/// The complete list of a video's tags.
pub struct SetVideoTagsRequest {
    pub video_id: i64,
    pub tag_ids: Vec<i64>,
}

fn push_quoted(b: &mut Vec<char>, s: &str)
    ensures
        final(b)@ == old(b)@ + quoted(s@),
{
    push_str(b, "'");
    let e = crate::sql::sql_escape(s);
    push_str(b, e.as_str());
    push_str(b, "'");
}

fn trimmed(s: &str) -> (r: String)
    ensures
        r@ == trim_spec(s@),
{
    let cs = chars_of(s);
    let t = trim_chars(&cs);
    string_of(&t)
}

/// A new tag: its name trimmed, its colour quoted or `NULL`; a blank name
/// is refused. Also the trimmed name, which reads the tag back.
pub open spec fn create_tag_spec(req: CreateTagRequest) -> Result<(Seq<char>, Seq<char>), Seq<char>> {
    let name = trim_spec(req.name@);
    if name.len() == 0 {
        Err("标签名称不能为空"@)
    } else {
        Ok(
            (
                "INSERT INTO tags (name, color) VALUES ("@ + quoted(name) + ", "@ + (match opt_view(
                    req.color,
                ) {
                    Some(c) => quoted(c),
                    None => "NULL"@,
                }) + ")"@,
                name,
            ),
        )
    }
}

pub fn create_tag_sql(req: &CreateTagRequest) -> (r: Result<(String, String), String>)
    ensures
        match create_tag_spec(*req) {
            Ok(v) => r matches Ok(x) && (x.0@, x.1@) == v,
            Err(e) => r matches Err(x) && x@ == e,
        },
{
    let name = trimmed(req.name.as_str());
    if name.as_str().is_empty() {
        return Err("标签名称不能为空".to_owned());
    }
    let mut b: Vec<char> = Vec::new();
    push_str(&mut b, "INSERT INTO tags (name, color) VALUES (");
    push_quoted(&mut b, name.as_str());
    push_str(&mut b, ", ");
    match &req.color {
        Some(c) => push_quoted(&mut b, c.as_str()),
        None => push_str(&mut b, "NULL"),
    }
    push_str(&mut b, ")");
    Ok((string_of(&b), name))
}

/// A failed insert: a second tag of one name, or another failure.
pub open spec fn create_tag_error_spec(name: Seq<char>, err: Seq<char>) -> Seq<char> {
    if contains_run(err, "UNIQUE"@) {
        "标签 '"@ + name + "' 已存在"@
    } else {
        "创建标签失败: "@ + err
    }
}

pub fn create_tag_error(name: &str, err: &str) -> (r: String)
    ensures
        r@ == create_tag_error_spec(name@, err@),
{
    let mut b: Vec<char> = Vec::new();
    if str_contains(err, "UNIQUE") {
        push_str(&mut b, "标签 '");
        push_str(&mut b, name);
        push_str(&mut b, "' 已存在");
    } else {
        push_str(&mut b, "创建标签失败: ");
        push_str(&mut b, err);
    }
    string_of(&b)
}

/// The statement that reads a tag back by name.
pub open spec fn tag_by_name_spec(name: Seq<char>) -> Seq<char> {
    "SELECT * FROM tags WHERE name = "@ + quoted(name)
}

pub fn tag_by_name_sql(name: &str) -> (r: String)
    ensures
        r@ == tag_by_name_spec(name@),
{
    let mut b: Vec<char> = Vec::new();
    push_str(&mut b, "SELECT * FROM tags WHERE name = ");
    push_quoted(&mut b, name);
    string_of(&b)
}

pub open spec fn tag_name_set(req: UpdateTagRequest) -> Seq<Seq<char>> {
    match req.name {
        Some(n) => seq!["name = "@ + quoted(trim_spec(n@))],
        None => Seq::empty(),
    }
}

/// The assignments of a tag edit: the trimmed name, the colour (cleared
/// when empty).
pub open spec fn tag_sets(req: UpdateTagRequest) -> Seq<Seq<char>> {
    match req.color {
        Some(c) => if c@.len() == 0 {
            tag_name_set(req).push("color = NULL"@)
        } else {
            tag_name_set(req).push("color = "@ + quoted(c@))
        },
        None => tag_name_set(req),
    }
}

pub open spec fn update_tag_spec(req: UpdateTagRequest) -> Result<Seq<char>, Seq<char>> {
    let blank_name = match req.name {
        Some(n) => trim_spec(n@).len() == 0,
        None => false,
    };
    if blank_name {
        Err("标签名称不能为空"@)
    } else if tag_sets(req).len() == 0 {
        Err("没有需要更新的字段"@)
    } else {
        Ok("UPDATE tags SET "@ + join_with(tag_sets(req), ", "@) + " WHERE id = "@ + int_text(req.id as int))
    }
}

fn assignment(col: &str, value: &str) -> (r: String)
    ensures
        r@ == col@ + quoted(value@),
{
    let mut b: Vec<char> = Vec::new();
    push_str(&mut b, col);
    push_quoted(&mut b, value);
    string_of(&b)
}

/// The statement of a tag edit, or why it is refused.
pub fn update_tag_sql(req: &UpdateTagRequest) -> (r: Result<String, String>)
    ensures
        match update_tag_spec(*req) {
            Ok(s) => r matches Ok(x) && x@ == s,
            Err(e) => r matches Err(x) && x@ == e,
        },
{
    let mut sets: Vec<String> = Vec::new();
    match &req.name {
        Some(n) => {
            let t = trimmed(n.as_str());
            if t.as_str().is_empty() {
                return Err("标签名称不能为空".to_owned());
            }
            sets.push(assignment("name = ", t.as_str()));
        },
        None => {},
    }
    assert(strs(sets@) =~= tag_name_set(*req));
    match &req.color {
        Some(c) => {
            if c.as_str().is_empty() {
                sets.push("color = NULL".to_owned());
            } else {
                sets.push(assignment("color = ", c.as_str()));
            }
        },
        None => {},
    }
    assert(strs(sets@) =~= tag_sets(*req));
    if sets.len() == 0 {
        return Err("没有需要更新的字段".to_owned());
    }
    let j = join_strings(&sets, ", ");
    let mut b: Vec<char> = Vec::new();
    push_str(&mut b, "UPDATE tags SET ");
    push_str(&mut b, j.as_str());
    push_str(&mut b, " WHERE id = ");
    push_int(&mut b, req.id);
    Ok(string_of(&b))
}

/// A failed edit: a name already taken, or another failure.
pub open spec fn update_tag_error_spec(err: Seq<char>) -> Seq<char> {
    if contains_run(err, "UNIQUE"@) {
        "标签名称已被使用"@
    } else {
        "更新标签失败: "@ + err
    }
}

pub fn update_tag_error(err: &str) -> (r: String)
    ensures
        r@ == update_tag_error_spec(err@),
{
    if str_contains(err, "UNIQUE") {
        "标签名称已被使用".to_owned()
    } else {
        let mut b: Vec<char> = Vec::new();
        push_str(&mut b, "更新标签失败: ");
        push_str(&mut b, err);
        string_of(&b)
    }
}

fn with_id(prefix: &str, id: i64) -> (r: String)
    ensures
        r@ == prefix@ + int_text(id as int),
{
    let mut b: Vec<char> = Vec::new();
    push_str(&mut b, prefix);
    push_int(&mut b, id);
    string_of(&b)
}

/// Deleting a tag takes it off every video first.
pub open spec fn delete_tag_spec(id: i64) -> Seq<Seq<char>> {
    seq![
        "DELETE FROM video_tags WHERE tag_id = "@ + int_text(id as int),
        "DELETE FROM tags WHERE id = "@ + int_text(id as int),
    ]
}

pub fn delete_tag_sql(id: i64) -> (r: Vec<String>)
    ensures
        strs(r@) == delete_tag_spec(id),
{
    let mut v: Vec<String> = Vec::new();
    v.push(with_id("DELETE FROM video_tags WHERE tag_id = ", id));
    v.push(with_id("DELETE FROM tags WHERE id = ", id));
    assert(strs(v@) =~= delete_tag_spec(id));
    v
}

/// A delete that removed no tag row names a tag that does not exist.
pub fn delete_tag_outcome(rows_affected: u64) -> (r: Result<(), String>)
    ensures
        rows_affected == 0 ==> (r matches Err(e) && e@ == "标签不存在"@),
        rows_affected > 0 ==> r is Ok,
{
    if rows_affected == 0 {
        Err("标签不存在".to_owned())
    } else {
        Ok(())
    }
}

/// The tags of a video, by name.
pub open spec fn video_tags_spec(video_id: i64) -> Seq<char> {
    "SELECT t.* FROM tags t INNER JOIN video_tags vt ON t.id = vt.tag_id WHERE vt.video_id = "@
        + int_text(video_id as int) + " ORDER BY t.name ASC"@
}

pub fn video_tags_sql(video_id: i64) -> (r: String)
    ensures
        r@ == video_tags_spec(video_id),
{
    let mut b: Vec<char> = Vec::new();
    push_str(
        &mut b,
        "SELECT t.* FROM tags t INNER JOIN video_tags vt ON t.id = vt.tag_id WHERE vt.video_id = ",
    );
    push_int(&mut b, video_id);
    push_str(&mut b, " ORDER BY t.name ASC");
    string_of(&b)
}

pub open spec fn tag_link_spec(video_id: i64, tag_id: i64) -> Seq<char> {
    "INSERT OR IGNORE INTO video_tags (video_id, tag_id) VALUES ("@ + int_text(video_id as int)
        + ", "@ + int_text(tag_id as int) + ")"@
}

/// Replacing a video's tags: its links are dropped, then one is made per
/// tag id, in order.
pub open spec fn set_video_tags_spec(video_id: i64, tag_ids: Seq<i64>) -> Seq<Seq<char>> {
    seq!["DELETE FROM video_tags WHERE video_id = "@ + int_text(video_id as int)] + tag_ids.map_values(
        |t: i64| tag_link_spec(video_id, t),
    )
}

pub fn set_video_tags_sql(req: &SetVideoTagsRequest) -> (r: Vec<String>)
    ensures
        strs(r@) == set_video_tags_spec(req.video_id, req.tag_ids@),
{
    let mut v: Vec<String> = Vec::new();
    v.push(with_id("DELETE FROM video_tags WHERE video_id = ", req.video_id));
    let ghost head = strs(v@);
    let mut i: usize = 0;
    while i < req.tag_ids.len()
        invariant
            i <= req.tag_ids.len(),
            head == seq!["DELETE FROM video_tags WHERE video_id = "@ + int_text(req.video_id as int)],
            strs(v@) == head + req.tag_ids@.take(i as int).map_values(
                |t: i64| tag_link_spec(req.video_id, t),
            ),
        decreases req.tag_ids.len() - i,
    {
        let mut b: Vec<char> = Vec::new();
        push_str(&mut b, "INSERT OR IGNORE INTO video_tags (video_id, tag_id) VALUES (");
        push_int(&mut b, req.video_id);
        push_str(&mut b, ", ");
        push_int(&mut b, req.tag_ids[i]);
        push_str(&mut b, ")");
        let ghost pre = strs(v@);
        v.push(string_of(&b));
        assert(strs(v@) =~= pre.push(tag_link_spec(req.video_id, req.tag_ids@[i as int])));
        assert(req.tag_ids@.take(i + 1).map_values(|t: i64| tag_link_spec(req.video_id, t))
            =~= req.tag_ids@.take(i as int).map_values(|t: i64| tag_link_spec(req.video_id, t)).push(
            tag_link_spec(req.video_id, req.tag_ids@[i as int]),
        ));
        i = i + 1;
    }
    assert(req.tag_ids@.take(req.tag_ids.len() as int) == req.tag_ids@);
    v
}

} // verus!
