use pbcli::comments::{CommentNode, DecryptedCommentsMap};
use pbcli::privatebin::{Cipher, Comment, Data, DecryptedComment, Meta, Paste, PasteFormat};

fn meta() -> Meta {
    Meta { created: Some(1), expire: None, time_to_live: None, icon: None }
}

fn comment(id: &str, parent: &str) -> Comment {
    Comment {
        id: id.to_string(),
        pasteid: "P".to_string(),
        parentid: parent.to_string(),
        v: 2,
        ct: String::new(),
        meta: meta(),
        adata: Cipher::new(&[0u8; 8], &[0u8; 16]),
    }
}

fn paste(comments: Option<Vec<Comment>>) -> Paste {
    Paste {
        status: Some(0),
        id: "P".to_string(),
        url: None,
        v: 2,
        ct: String::new(),
        meta: meta(),
        adata: Data { cipher: Cipher::new(&[0u8; 8], &[0u8; 16]), format: PasteFormat::Plaintext, discuss: 1, burn: 0 },
        comments,
    }
}

fn body(text: &str, nick: Option<&str>) -> DecryptedComment {
    DecryptedComment { comment: text.to_string(), nickname: nick.map(|n| n.to_string()) }
}

fn ids(nodes: &[CommentNode]) -> Vec<&str> {
    nodes.iter().map(|n| n.id.as_str()).collect()
}

#[test]
fn adjacency_groups_in_list_order() {
    let p = paste(Some(vec![comment("A", "P"), comment("B", "A"), comment("D", "P"), comment("C", "A")]));
    let adj = p.comments_adjacency_map().unwrap();
    assert_eq!(adj.get(&"P".to_string()).unwrap(), &vec!["A".to_string(), "D".to_string()]);
    assert_eq!(adj.get(&"A".to_string()).unwrap(), &vec!["B".to_string(), "C".to_string()]);
    assert!(adj.get(&"B".to_string()).is_none());
    assert!(paste(None).comments_adjacency_map().unwrap().get(&"P".to_string()).is_none());
}

#[test]
fn forest_of_three_comments() {
    let p = paste(Some(vec![comment("A", "P"), comment("B", "A"), comment("C", "A")]));
    let mut dec = DecryptedCommentsMap::new();
    dec.insert("A".to_string(), body("a", Some("alice")));
    dec.insert("B".to_string(), body("b", None));
    dec.insert("C".to_string(), body("c", Some("carol")));
    let adj = p.comments_adjacency_map().unwrap();
    let forest = p.comments_forest(&dec, &adj);
    assert_eq!(ids(&forest), vec!["A"]);
    assert_eq!(forest[0].comment, "a");
    assert_eq!(forest[0].nickname.as_deref(), Some("alice"));
    assert_eq!(ids(&forest[0].replies), vec!["B", "C"]);
    assert_eq!(forest[0].replies[0].comment, "b");
    assert_eq!(forest[0].replies[0].nickname, None);
    assert_eq!(forest[0].replies[1].nickname.as_deref(), Some("carol"));
    assert!(forest[0].replies[0].replies.is_empty());
    assert_eq!(
        p.comments_formatted_json_trees(&dec, &adj).unwrap(),
        "[{\"comment\":\"a\",\"id\":\"A\",\"nickname\":\"alice\",\"replies\":[\
         {\"comment\":\"b\",\"id\":\"B\",\"nickname\":null,\"replies\":[]},\
         {\"comment\":\"c\",\"id\":\"C\",\"nickname\":\"carol\",\"replies\":[]}]}]"
    );
}

#[test]
fn missing_body_keeps_node_and_children() {
    let p = paste(Some(vec![comment("A", "P"), comment("B", "A"), comment("C", "B")]));
    let mut dec = DecryptedCommentsMap::new();
    dec.insert("A".to_string(), body("a", None));
    dec.insert("C".to_string(), body("c", None));
    let adj = p.comments_adjacency_map().unwrap();
    let forest = p.comments_forest(&dec, &adj);
    let b = &forest[0].replies[0];
    assert_eq!(b.id, "B");
    assert_eq!(b.comment, "");
    assert_eq!(b.nickname, None);
    assert_eq!(ids(&b.replies), vec!["C"]);
    assert_eq!(b.replies[0].comment, "c");
    let text = p.comments_formatted_json_trees(&dec, &adj).unwrap();
    let value: serde_json::Value = serde_json::from_str(&text).unwrap();
    assert_eq!(value[0]["replies"][0]["comment"], "");
    assert_eq!(value[0]["replies"][0]["nickname"], serde_json::Value::Null);
    assert_eq!(value[0]["replies"][0]["replies"][0]["id"], "C");
}

#[test]
fn self_parent_and_missing_parent_are_unreachable() {
    let p = paste(Some(vec![comment("A", "P"), comment("X", "X"), comment("Y", "nowhere"), comment("B", "A")]));
    let dec = DecryptedCommentsMap::new();
    let adj = p.comments_adjacency_map().unwrap();
    let forest = p.comments_forest(&dec, &adj);
    assert_eq!(ids(&forest), vec!["A"]);
    assert_eq!(ids(&forest[0].replies), vec!["B"]);
}

#[test]
fn comment_named_like_the_paste_does_not_loop() {
    let p = paste(Some(vec![comment("P", "P"), comment("A", "P")]));
    let dec = DecryptedCommentsMap::new();
    let adj = p.comments_adjacency_map().unwrap();
    let forest = p.comments_forest(&dec, &adj);
    assert_eq!(ids(&forest), vec!["A"]);
    assert!(forest[0].replies.is_empty());
}

#[test]
fn empty_forest_without_comments() {
    let p = paste(None);
    let dec = DecryptedCommentsMap::new();
    assert!(dec.is_empty());
    let adj = p.comments_adjacency_map().unwrap();
    assert!(p.comments_forest(&dec, &adj).is_empty());
    assert_eq!(p.comments_formatted_json_trees(&dec, &adj).unwrap(), "[]");
}

#[test]
fn decrypted_map_insert_replaces() {
    let mut dec = DecryptedCommentsMap::new();
    dec.insert("A".to_string(), body("first", None));
    dec.insert("B".to_string(), body("other", None));
    dec.insert("A".to_string(), body("second", Some("n")));
    assert!(!dec.is_empty());
    assert_eq!(dec.get(&"A".to_string()).unwrap().comment, "second");
    assert_eq!(dec.get(&"B".to_string()).unwrap().comment, "other");
    assert!(dec.get(&"C".to_string()).is_none());
}

#[test]
fn deep_chain_is_fully_expanded() {
    let mut list = vec![comment("c0", "P")];
    for i in 1..20 {
        list.push(comment(&format!("c{}", i), &format!("c{}", i - 1)));
    }
    let p = paste(Some(list));
    let dec = DecryptedCommentsMap::new();
    let adj = p.comments_adjacency_map().unwrap();
    let forest = p.comments_forest(&dec, &adj);
    let mut node = &forest[0];
    for i in 1..20 {
        assert_eq!(node.replies.len(), 1);
        node = &node.replies[0];
        assert_eq!(node.id, format!("c{}", i));
    }
    assert!(node.replies.is_empty());
}

#[test]
fn forest_follows_the_map_given() {
    let with_comments = paste(Some(vec![comment("A", "P"), comment("B", "A")]));
    let adj = with_comments.comments_adjacency_map().unwrap();
    let bare = paste(None);
    let dec = DecryptedCommentsMap::new();
    let forest = bare.comments_forest(&dec, &adj);
    assert_eq!(ids(&forest), vec!["A"]);
    assert_eq!(ids(&forest[0].replies), vec!["B"]);
    assert_eq!(adj.parent_count(), 2);
}

#[test]
fn cycle_below_the_root_is_cut_where_it_returns() {
    let p = paste(Some(vec![comment("A", "P"), comment("B", "A"), comment("A", "B")]));
    let dec = DecryptedCommentsMap::new();
    let adj = p.comments_adjacency_map().unwrap();
    let forest = p.comments_forest(&dec, &adj);
    assert_eq!(ids(&forest), vec!["A"]);
    assert_eq!(ids(&forest[0].replies), vec!["B"]);
    assert!(forest[0].replies[0].replies.is_empty());
}
