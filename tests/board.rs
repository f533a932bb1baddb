use pinlab::{
    blob_type_for, editor_extensions, launch_for, Blob, BlobType, BoardEvent, BoardGraph, Conn,
    Launch, MyEdgeShape, MyNodeShape, NamedColor, Pinboard, PinboardBuffer, PinlabApp, Position,
    Relation, Target,
};

fn conn(relation: Relation) -> Conn {
    Conn { comment: None, relation }
}

fn blob(path: &str) -> Blob {
    Blob::new(BlobType::File, path.to_string(), b"content")
}

#[test]
fn relation_labels_and_colors() {
    assert_eq!(Relation::Conflict.label(), "Conflict");
    assert_eq!(Relation::Progress.label(), "Progress");
    assert_eq!(Relation::Insight.label(), "Insight");
    assert_eq!(Relation::Related.label(), "Related");
    assert_eq!(Relation::Conflict.color(), Some(NamedColor::LightRed));
    assert_eq!(Relation::Progress.color(), Some(NamedColor::Yellow));
    assert_eq!(Relation::Insight.color(), Some(NamedColor::LightGreen));
    assert_eq!(Relation::Related.color(), None);
}

#[test]
fn removing_a_node_removes_its_edges_and_keeps_indices() {
    let mut g = BoardGraph::new();
    let a = g.add_node(None, "a".to_string(), None);
    let b = g.add_node(None, "b".to_string(), Some(Position { x_bits: 1, y_bits: 2 }));
    let c = g.add_node(None, "c".to_string(), None);
    let ab = g.add_edge(a, b, conn(Relation::Related), "ab".to_string());
    let bc = g.add_edge(b, c, conn(Relation::Insight), "bc".to_string());
    let ac = g.add_edge(a, c, conn(Relation::Conflict), "ac".to_string());
    g.select_node(b);
    g.select_node(a);
    g.select_edge(ab);
    g.select_edge(ac);
    assert!(g.remove_node(b).is_some());
    assert!(g.node(b).is_none());
    assert!(g.edge(ab).is_none());
    assert!(g.edge(bc).is_none());
    assert_eq!(g.edge(ac).unwrap().label, "ac");
    assert_eq!(g.node(c).unwrap().label, "c");
    assert_eq!(g.selected_nodes(), &vec![a]);
    assert_eq!(g.selected_edges(), &vec![ac]);
    assert!(g.remove_node(b).is_none());
    assert!(g.is_well_formed());
}

#[test]
fn find_edge_ignores_direction_and_removed_edges() {
    let mut g = BoardGraph::new();
    let a = g.add_node(None, String::new(), None);
    let b = g.add_node(None, String::new(), None);
    let e = g.add_edge(a, b, conn(Relation::Related), String::new());
    assert_eq!(g.find_edge(b, a), Some(e));
    assert_eq!(g.find_edge(a, a), None);
    assert!(g.remove_edge(e).is_some());
    assert_eq!(g.find_edge(a, b), None);
    assert!(g.remove_edge(e).is_none());
}

#[test]
fn selecting_twice_keeps_one_entry() {
    let mut g = BoardGraph::new();
    let a = g.add_node(None, String::new(), None);
    g.select_node(a);
    g.select_node(a);
    assert_eq!(g.selected_nodes().len(), 1);
    g.clear_selection();
    assert!(g.selected_nodes().is_empty());
}

#[test]
fn malformed_graph_is_detected() {
    let mut g = BoardGraph::new();
    let a = g.add_node(None, String::new(), None);
    assert!(g.is_well_formed());
    g.selected_edges.push(3);
    assert!(!g.is_well_formed());
    g.selected_edges.clear();
    g.edges.push(Some(pinlab::EdgeEntry { a, b: 9, payload: conn(Relation::Related), label: String::new() }));
    assert!(!g.is_well_formed());
}

fn buffer_with_two_nodes() -> (PinboardBuffer, usize, usize) {
    let mut buf = PinboardBuffer::new(
        Pinboard::with_uuid(7, "Board".to_string(), BoardGraph::new()),
        None,
        false,
    );
    let a = buf.add_node(None);
    let b = buf.add_node(Some(Position { x_bits: 0x3f80_0000, y_bits: 0 }));
    (buf, a, b)
}

#[test]
fn connect_two_selected_nodes_once() {
    let (mut buf, a, b) = buffer_with_two_nodes();
    assert!(!buf.can_connect());
    buf.pinboard.graph.select_node(a);
    buf.pinboard.graph.select_node(b);
    assert!(buf.can_connect());
    let e = buf.connect_selected(Relation::Insight).unwrap();
    assert!(buf.unsaved);
    let edge = buf.pinboard.graph.edge(e).unwrap();
    assert_eq!((edge.a, edge.b), (a, b));
    assert_eq!(edge.label, "Insight");
    assert_eq!(edge.payload.relation, Relation::Insight);
    assert!(!buf.can_connect());
    assert_eq!(buf.connect_selected(Relation::Related), None);
}

#[test]
fn change_relation_of_the_selected_edge() {
    let (mut buf, a, b) = buffer_with_two_nodes();
    let e = buf.pinboard.graph.add_edge(a, b, Conn { comment: Some(blob("c.md")), relation: Relation::Related }, "Related".to_string());
    assert!(!buf.change_selected_relation(Relation::Conflict));
    buf.pinboard.graph.select_edge(e);
    assert!(buf.change_selected_relation(Relation::Conflict));
    let edge = buf.pinboard.graph.edge(e).unwrap();
    assert_eq!(edge.label, "Conflict");
    assert_eq!(edge.payload.relation, Relation::Conflict);
    assert_eq!(edge.payload.comment.as_ref().unwrap().path, "c.md");
    assert!(buf.unsaved);
}

#[test]
fn delete_selected_nodes_and_edges() {
    let (mut buf, a, b) = buffer_with_two_nodes();
    let c = buf.add_node(None);
    let ab = buf.pinboard.graph.add_edge(a, b, conn(Relation::Related), String::new());
    let bc = buf.pinboard.graph.add_edge(b, c, conn(Relation::Related), String::new());
    buf.pinboard.graph.select_edge(bc);
    buf.delete_selected_edges();
    assert!(buf.pinboard.graph.edge(bc).is_none());
    assert!(buf.pinboard.graph.edge(ab).is_some());
    buf.pinboard.graph.select_node(a);
    buf.delete_selected_nodes();
    assert!(buf.pinboard.graph.node(a).is_none());
    assert!(buf.pinboard.graph.edge(ab).is_none());
    assert!(buf.pinboard.graph.node(b).is_some());
    assert!(buf.unsaved);
}

#[test]
fn double_click_hands_out_the_blob() {
    let (mut buf, a, b) = buffer_with_two_nodes();
    assert!(buf.apply_blob(Target::Node(a), blob("docs/notes.md")));
    assert!(buf.unsaved);
    assert_eq!(buf.pinboard.graph.node(a).unwrap().label, "notes.md");
    buf.unsaved = false;
    let (t, got) = buf.handle_event(BoardEvent::NodeDoubleClick(a)).unwrap();
    assert_eq!(t, Target::Node(a));
    assert_eq!(got.path, "docs/notes.md");
    assert!(buf.handle_event(BoardEvent::NodeDoubleClick(b)).is_none());
    assert!(buf.handle_event(BoardEvent::EdgeDoubleClick(0)).is_none());
    assert!(!buf.unsaved);
    assert!(buf.handle_event(BoardEvent::NodeMove(b)).is_none());
    assert!(buf.unsaved);
}

#[test]
fn blob_on_an_edge_keeps_the_relation() {
    let (mut buf, a, b) = buffer_with_two_nodes();
    let e = buf.pinboard.graph.add_edge(a, b, conn(Relation::Progress), "Progress".to_string());
    assert!(buf.apply_blob(Target::Edge(e), blob("/tmp/comment.txt")));
    let edge = buf.pinboard.graph.edge(e).unwrap();
    assert_eq!(edge.label, "comment.txt");
    assert_eq!(edge.payload.relation, Relation::Progress);
    let (t, got) = buf.handle_event(BoardEvent::EdgeDoubleClick(e)).unwrap();
    assert_eq!(t, Target::Edge(e));
    assert_eq!(got.path, "/tmp/comment.txt");
}

#[test]
fn blob_without_file_name_is_not_applied() {
    let (mut buf, a, _) = buffer_with_two_nodes();
    assert!(!buf.apply_blob(Target::Node(a), blob("/")));
    assert!(buf.pinboard.graph.node(a).unwrap().payload.is_none());
    assert!(!buf.unsaved);
}

#[test]
fn save_outcomes_and_title() {
    let (mut buf, _, _) = buffer_with_two_nodes();
    buf.unsaved = true;
    assert_eq!(buf.window_title(), "Board*");
    assert_eq!(buf.finish_save(Err("cancelled".to_string())), Some("cancelled".to_string()));
    assert!(buf.unsaved);
    assert_eq!(buf.finish_save(Ok("b.pinbrd".to_string())), None);
    assert_eq!(buf.path, Some("b.pinbrd".to_string()));
    assert!(!buf.unsaved);
    assert_eq!(buf.window_title(), "Board");
    buf.show_rename_modal = true;
    buf.finish_rename();
    assert!(!buf.show_rename_modal);
    assert!(buf.unsaved);
}

#[test]
fn finished_tasks_are_taken_in_once() {
    let (mut buf, a, _) = buffer_with_two_nodes();
    let out = buf.finish_tasks(
        Some(Ok("saved.pinbrd".to_string())),
        Some((Target::Node(a), Err("no file".to_string()))),
        None,
    );
    assert_eq!(out.errors, vec!["no file".to_string()]);
    assert!(out.to_open.is_none());
    assert_eq!(buf.path, Some("saved.pinbrd".to_string()));
    assert!(!buf.unsaved);
    let out = buf.finish_tasks(None, None, Some((Target::Node(a), Ok(blob("x/y.md")))));
    assert!(out.errors.is_empty());
    assert_eq!(out.to_open.unwrap().path, "x/y.md");
    assert_eq!(buf.pinboard.graph.node(a).unwrap().label, "y.md");
    assert!(buf.unsaved);
    let out = buf.finish_tasks(None, None, None);
    assert!(out.errors.is_empty() && out.to_open.is_none());
}

#[test]
fn blob_without_file_name_is_reported() {
    let (mut buf, a, _) = buffer_with_two_nodes();
    let out = buf.finish_tasks(
        Some(Err("write failed".to_string())),
        Some((Target::Node(a), Ok(blob("/")))),
        Some((Target::Node(a), Err("gone".to_string()))),
    );
    assert_eq!(
        out.errors,
        vec![
            "write failed".to_string(),
            "blob path has no file name: /".to_string(),
            "gone".to_string()
        ]
    );
    assert!(buf.pinboard.graph.node(a).unwrap().payload.is_none());
}

#[test]
fn pinboards_keep_their_identifier() {
    let p = Pinboard::with_uuid(42, "t".to_string(), BoardGraph::new());
    assert_eq!(p.get_uuid(), 42);
    let d = Pinboard::default();
    assert_eq!(d.get_uuid(), 0);
    assert!(d.title.is_empty());
    let n1 = Pinboard::new("a".to_string(), BoardGraph::new());
    let n2 = Pinboard::new("a".to_string(), BoardGraph::new());
    assert_ne!(n1.get_uuid(), n2.get_uuid());
}

#[test]
fn opening_the_same_board_twice_shows_it_once() {
    let mut boards = PinlabApp::new(None, None);
    let first = PinboardBuffer::new(Pinboard::with_uuid(1, "one".to_string(), BoardGraph::new()), None, false);
    assert!(boards.open_buffer(first));
    boards.pinboards[0].1 = false;
    let again = PinboardBuffer::new(Pinboard::with_uuid(1, "copy".to_string(), BoardGraph::new()), None, false);
    assert!(!boards.open_buffer(again));
    assert_eq!(boards.pinboards.len(), 1);
    assert!(boards.pinboards[0].1);
    assert_eq!(boards.pinboards[0].0.pinboard.title, "one");
    assert_eq!(boards.find(1), Some(0));
    assert_eq!(boards.find(2), None);
    boards.new_pinboard();
    assert_eq!(boards.pinboards.len(), 2);
    let (b, open) = &boards.pinboards[1];
    assert!(*open);
    assert!(b.unsaved);
    assert_eq!(b.pinboard.title, "Untitled");
}

#[test]
fn launching_blobs() {
    let exts = editor_extensions(None);
    assert_eq!(exts, vec!["md".to_string(), "markdown".to_string()]);
    let server = Some("127.0.0.1:6666".to_string());
    let md = blob("notes/a.md");
    assert_eq!(
        launch_for(&md, &server, &exts),
        Launch::Editor { server: "127.0.0.1:6666".to_string(), path: "notes/a.md".to_string() }
    );
    assert_eq!(launch_for(&md, &None, &exts), Launch::System("notes/a.md".to_string()));
    let pdf = blob("paper.pdf");
    assert_eq!(launch_for(&pdf, &server, &exts), Launch::System("paper.pdf".to_string()));
    let board = Blob::new(BlobType::PinboardGraph, "b.pinbrd".to_string(), b"{}");
    assert_eq!(launch_for(&board, &server, &exts), Launch::Board("b.pinbrd".to_string()));
    let own = editor_extensions(Some(vec!["txt".to_string()]));
    assert_eq!(launch_for(&blob("x.txt"), &server, &own), Launch::Editor { server: "127.0.0.1:6666".to_string(), path: "x.txt".to_string() });
}

#[test]
fn picked_file_kind_follows_its_extension() {
    assert_eq!(blob_type_for("dir/board.pinbrd"), BlobType::PinboardGraph);
    assert_eq!(blob_type_for("dir/board.md"), BlobType::File);
    assert_eq!(blob_type_for("pinbrd"), BlobType::File);
}

#[test]
fn node_and_edge_styles_follow_payload() {
    assert_eq!(MyNodeShape::from(None).color, None);
    let board = Blob::new(BlobType::PinboardGraph, "b.pinbrd".to_string(), b"{}");
    assert_eq!(MyNodeShape::from(Some(board)).color, Some(NamedColor::LightBlue));
    assert_eq!(MyNodeShape::from(Some(blob("a.md"))).color, None);
    assert_eq!(MyEdgeShape::from(conn(Relation::Conflict)).color, Some(NamedColor::LightRed));
    assert_eq!(MyEdgeShape::from(conn(Relation::Related)).color, None);
}

#[test]
fn app_opens_loaded_boards_once_and_reports_failures() {
    let mut app = PinlabApp::new(Some("srv".to_string()), Some(vec!["txt".to_string()]));
    assert_eq!(app.nvim_ext, vec!["txt".to_string()]);
    let errors = app.handle_opened(vec![
        Ok(PinboardBuffer::new(
            Pinboard::with_uuid(5, "five".to_string(), BoardGraph::new()),
            Some("five.pinbrd".to_string()),
            false,
        )),
        Err("bad file".to_string()),
    ]);
    assert_eq!(errors, vec!["bad file".to_string()]);
    assert_eq!(app.pinboards.len(), 1);
    app.pinboards[0].1 = false;
    let errors = app.handle_opened(vec![
        Ok(PinboardBuffer::new(
            Pinboard::with_uuid(5, "five again".to_string(), BoardGraph::new()),
            None,
            false,
        )),
        Ok(PinboardBuffer::new(
            Pinboard::with_uuid(6, "six".to_string(), BoardGraph::new()),
            None,
            false,
        )),
    ]);
    assert!(errors.is_empty());
    assert_eq!(app.pinboards.len(), 2);
    assert!(app.pinboards[0].1);
    assert_eq!(app.pinboards[0].0.pinboard.title, "five");
    assert_eq!(app.pinboards[1].0.pinboard.title, "six");
    assert!(app.pinboards[1].1);
    assert_eq!(
        app.launch(&blob("x.txt")),
        Launch::Editor { server: "srv".to_string(), path: "x.txt".to_string() }
    );
}
