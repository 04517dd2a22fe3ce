use clipper_studio::tags::{
    create_tag_error, create_tag_sql, delete_tag_outcome, delete_tag_sql, set_video_tags_sql,
    tag_by_name_sql, update_tag_error, update_tag_sql, video_tags_sql, CreateTagRequest,
    SetVideoTagsRequest, UpdateTagRequest,
};

#[test]
fn creating_tags() {
    let (sql, name) = create_tag_sql(&CreateTagRequest { name: "  高光 ".into(), color: Some("#f00".into()) }).unwrap();
    assert_eq!(sql, "INSERT INTO tags (name, color) VALUES ('高光', '#f00')");
    assert_eq!(name, "高光");
    let (sql, _) = create_tag_sql(&CreateTagRequest { name: "it's".into(), color: None }).unwrap();
    assert_eq!(sql, "INSERT INTO tags (name, color) VALUES ('it''s', NULL)");
    assert_eq!(create_tag_sql(&CreateTagRequest { name: "  ".into(), color: None }).unwrap_err(), "标签名称不能为空");
    assert_eq!(tag_by_name_sql("it's"), "SELECT * FROM tags WHERE name = 'it''s'");
    assert_eq!(create_tag_error("高光", "UNIQUE constraint failed"), "标签 '高光' 已存在");
    assert_eq!(create_tag_error("高光", "disk I/O error"), "创建标签失败: disk I/O error");
}

#[test]
fn editing_tags() {
    assert_eq!(
        update_tag_sql(&UpdateTagRequest { id: 3, name: Some(" 新 ".into()), color: Some(String::new()) }).unwrap(),
        "UPDATE tags SET name = '新', color = NULL WHERE id = 3"
    );
    assert_eq!(
        update_tag_sql(&UpdateTagRequest { id: 3, name: None, color: Some("#0f0".into()) }).unwrap(),
        "UPDATE tags SET color = '#0f0' WHERE id = 3"
    );
    assert_eq!(
        update_tag_sql(&UpdateTagRequest { id: 3, name: Some(" ".into()), color: None }).unwrap_err(),
        "标签名称不能为空"
    );
    assert_eq!(
        update_tag_sql(&UpdateTagRequest { id: 3, name: None, color: None }).unwrap_err(),
        "没有需要更新的字段"
    );
    assert_eq!(update_tag_error("UNIQUE constraint failed: tags.name"), "标签名称已被使用");
    assert_eq!(update_tag_error("locked"), "更新标签失败: locked");
}

#[test]
fn deleting_and_assigning_tags() {
    assert_eq!(delete_tag_sql(4), vec!["DELETE FROM video_tags WHERE tag_id = 4", "DELETE FROM tags WHERE id = 4"]);
    assert_eq!(delete_tag_outcome(0).unwrap_err(), "标签不存在");
    assert!(delete_tag_outcome(1).is_ok());
    assert_eq!(
        video_tags_sql(8),
        "SELECT t.* FROM tags t INNER JOIN video_tags vt ON t.id = vt.tag_id WHERE vt.video_id = 8 ORDER BY t.name ASC"
    );
    assert_eq!(
        set_video_tags_sql(&SetVideoTagsRequest { video_id: 8, tag_ids: vec![1, 2] }),
        vec![
            "DELETE FROM video_tags WHERE video_id = 8",
            "INSERT OR IGNORE INTO video_tags (video_id, tag_id) VALUES (8, 1)",
            "INSERT OR IGNORE INTO video_tags (video_id, tag_id) VALUES (8, 2)"
        ]
    );
}
