use node_styles::dom::{ElementKind, NodeKind};
use node_styles::layout::{BoxId, LayoutData, Node};
use node_styles::styles::{empty_style_for_node_kind, SpecifiedStyle};
use node_styles::values::{Color, DisplayType, Unit};

fn leaf(kind: NodeKind) -> Node {
    Node::new(kind)
}

fn branch(kind: NodeKind, children: Vec<Node>) -> Node {
    let mut node = Node::new(kind);
    for child in children {
        node.add_child(child);
    }
    node
}

fn initial(kind: NodeKind) -> LayoutData {
    LayoutData { specified_style: empty_style_for_node_kind(kind), layout_box: None }
}

fn only_display(display: DisplayType) -> SpecifiedStyle {
    SpecifiedStyle {
        background_color: None,
        display_type: Some(display),
        font_size: None,
        height: None,
        text_color: None,
        width: None,
    }
}

fn styled_by_hand() -> LayoutData {
    LayoutData {
        specified_style: SpecifiedStyle {
            background_color: Some(Color { red: 10, green: 20, blue: 30, alpha: 255 }),
            display_type: Some(DisplayType::Inline),
            font_size: Some(Unit::Pt(12)),
            height: None,
            text_color: None,
            width: Some(Unit::Percent(50)),
        },
        layout_box: Some(BoxId(9)),
    }
}

/// A document with one node of every kind, eight nodes in all.
fn document() -> Node {
    branch(
        NodeKind::Element(ElementKind::Unknown),
        vec![
            leaf(NodeKind::Doctype),
            branch(
                NodeKind::Element(ElementKind::Head),
                vec![leaf(NodeKind::Element(ElementKind::Script))],
            ),
            branch(
                NodeKind::Element(ElementKind::Div),
                vec![
                    leaf(NodeKind::Text),
                    leaf(NodeKind::Element(ElementKind::Image)),
                    leaf(NodeKind::Comment),
                ],
            ),
        ],
    )
}

#[test]
fn new_node_has_no_data_and_no_children() {
    let node = Node::new(NodeKind::Text);
    assert_eq!(node.kind, NodeKind::Text);
    assert!(!node.has_aux());
    assert_eq!(node.aux, None);
    assert!(node.children.is_empty());
}

#[test]
fn add_child_appends_in_order() {
    let mut node = Node::new(NodeKind::Element(ElementKind::Div));
    node.add_child(Node::new(NodeKind::Text));
    node.add_child(Node::new(NodeKind::Comment));
    assert_eq!(node.children.len(), 2);
    assert_eq!(node.children[0].kind, NodeKind::Text);
    assert_eq!(node.children[1].kind, NodeKind::Comment);
    assert_eq!(node.kind, NodeKind::Element(ElementKind::Div));
}

#[test]
fn set_aux_attaches_and_aux_reads_back() {
    let mut node = Node::new(NodeKind::Text);
    node.set_aux(styled_by_hand());
    assert!(node.has_aux());
    assert_eq!(node.aux(), styled_by_hand());
    assert_eq!(node.kind, NodeKind::Text);
}

#[test]
fn initialize_style_attaches_the_empty_style_once() {
    let mut node = Node::new(NodeKind::Element(ElementKind::Div));
    let created = node.initialize_style();
    assert_eq!(created, vec![initial(NodeKind::Element(ElementKind::Div))]);
    assert_eq!(node.aux, Some(initial(NodeKind::Element(ElementKind::Div))));
    assert_eq!(created[0].layout_box, None);
    assert_eq!(created[0].specified_style, only_display(DisplayType::Block));
}

#[test]
fn initialize_style_is_a_no_op_the_second_time() {
    let mut node = Node::new(NodeKind::Text);
    let first = node.initialize_style();
    assert_eq!(first.len(), 1);
    let second = node.initialize_style();
    assert_eq!(second, vec![]);
    assert_eq!(node.aux, Some(initial(NodeKind::Text)));
}

#[test]
fn initialize_style_keeps_data_that_are_there() {
    let mut node = Node::new(NodeKind::Element(ElementKind::Div));
    node.set_aux(styled_by_hand());
    let created = node.initialize_style();
    assert_eq!(created, vec![]);
    assert_eq!(node.aux, Some(styled_by_hand()));
}

#[test]
fn initialize_style_leaves_the_children_alone() {
    let mut node = branch(NodeKind::Element(ElementKind::Div), vec![leaf(NodeKind::Text)]);
    let created = node.initialize_style();
    assert_eq!(created.len(), 1);
    assert_eq!(node.children.len(), 1);
    assert_eq!(node.children[0], leaf(NodeKind::Text));
}

#[test]
fn subtree_is_initialized_in_pre_order() {
    let mut root = document();
    let created = root.initialize_style_for_subtree();
    let expected = vec![
        initial(NodeKind::Element(ElementKind::Unknown)),
        initial(NodeKind::Doctype),
        initial(NodeKind::Element(ElementKind::Head)),
        initial(NodeKind::Element(ElementKind::Script)),
        initial(NodeKind::Element(ElementKind::Div)),
        initial(NodeKind::Text),
        initial(NodeKind::Element(ElementKind::Image)),
        initial(NodeKind::Comment),
    ];
    assert_eq!(created, expected);
    let displays: Vec<Option<DisplayType>> =
        created.iter().map(|data| data.specified_style.display_type).collect();
    assert_eq!(
        displays,
        vec![
            Some(DisplayType::Inline),
            Some(DisplayType::DisplayNone),
            Some(DisplayType::DisplayNone),
            Some(DisplayType::DisplayNone),
            Some(DisplayType::Block),
            Some(DisplayType::Inline),
            Some(DisplayType::Inline),
            Some(DisplayType::DisplayNone),
        ]
    );
}

#[test]
fn subtree_initialization_reaches_every_node() {
    let mut root = document();
    root.initialize_style_for_subtree();
    assert_eq!(root.aux, Some(initial(NodeKind::Element(ElementKind::Unknown))));
    assert_eq!(root.children[0].aux, Some(initial(NodeKind::Doctype)));
    assert_eq!(root.children[1].aux, Some(initial(NodeKind::Element(ElementKind::Head))));
    assert_eq!(
        root.children[1].children[0].aux,
        Some(initial(NodeKind::Element(ElementKind::Script)))
    );
    assert_eq!(root.children[2].aux, Some(initial(NodeKind::Element(ElementKind::Div))));
    assert_eq!(root.children[2].children[0].aux, Some(initial(NodeKind::Text)));
    assert_eq!(
        root.children[2].children[1].aux,
        Some(initial(NodeKind::Element(ElementKind::Image)))
    );
    assert_eq!(root.children[2].children[2].aux, Some(initial(NodeKind::Comment)));
}

#[test]
fn subtree_initialization_keeps_shape_and_kinds() {
    let mut root = document();
    root.initialize_style_for_subtree();
    assert_eq!(root.kind, NodeKind::Element(ElementKind::Unknown));
    assert_eq!(root.children.len(), 3);
    assert_eq!(root.children[0].children.len(), 0);
    assert_eq!(root.children[1].children.len(), 1);
    assert_eq!(root.children[2].children.len(), 3);
    assert_eq!(root.children[2].kind, NodeKind::Element(ElementKind::Div));
    assert_eq!(root.children[2].children[1].kind, NodeKind::Element(ElementKind::Image));
}

#[test]
fn second_subtree_initialization_creates_nothing() {
    let mut root = document();
    let first = root.initialize_style_for_subtree();
    assert_eq!(first.len(), 8);
    let mut after_first = document();
    after_first.initialize_style_for_subtree();
    let second = root.initialize_style_for_subtree();
    assert_eq!(second, vec![]);
    assert_eq!(root, after_first);
}

#[test]
fn subtree_initialization_fills_only_what_is_missing() {
    let mut root = document();
    root.children[1].set_aux(styled_by_hand());
    root.children[2].children[0].initialize_style();
    let created = root.initialize_style_for_subtree();
    assert_eq!(
        created,
        vec![
            initial(NodeKind::Element(ElementKind::Unknown)),
            initial(NodeKind::Doctype),
            initial(NodeKind::Element(ElementKind::Script)),
            initial(NodeKind::Element(ElementKind::Div)),
            initial(NodeKind::Element(ElementKind::Image)),
            initial(NodeKind::Comment),
        ]
    );
    assert_eq!(root.children[1].aux, Some(styled_by_hand()));
    assert_eq!(root.children[2].children[0].aux, Some(initial(NodeKind::Text)));
}

#[test]
fn single_node_subtree_creates_one() {
    let mut node = leaf(NodeKind::Comment);
    let created = node.initialize_style_for_subtree();
    assert_eq!(created, vec![initial(NodeKind::Comment)]);
    assert_eq!(node.initialize_style_for_subtree(), vec![]);
}

#[test]
fn style_after_initialization_has_only_the_display_type() {
    let mut root = document();
    root.initialize_style_for_subtree();
    assert_eq!(root.get_specified_style(), only_display(DisplayType::Inline));
    assert_eq!(root.children[1].get_specified_style(), only_display(DisplayType::DisplayNone));
    assert_eq!(root.children[2].get_specified_style(), only_display(DisplayType::Block));
    assert_eq!(
        root.children[2].children[1].get_specified_style(),
        only_display(DisplayType::Inline)
    );
}

#[test]
fn get_specified_style_hands_out_a_copy() {
    let mut node = leaf(NodeKind::Text);
    node.initialize_style();
    let mut copy = node.get_specified_style();
    copy.width = Some(Unit::Px(3));
    assert_eq!(node.get_specified_style(), only_display(DisplayType::Inline));
    assert_eq!(node.get_specified_style().width, None);
}

#[test]
fn get_specified_style_reads_what_was_attached() {
    let mut node = leaf(NodeKind::Text);
    node.set_aux(styled_by_hand());
    assert_eq!(node.get_specified_style(), styled_by_hand().specified_style);
}

#[test]
fn clone_copies_the_whole_subtree() {
    let mut root = document();
    root.children[1].set_aux(styled_by_hand());
    let copy = root.clone();
    assert_eq!(copy, root);
    root.initialize_style_for_subtree();
    assert_ne!(copy, root);
    assert_eq!(copy.aux, None);
    assert_eq!(copy.children[1].aux, Some(styled_by_hand()));
    assert_eq!(copy.children[2].children.len(), 3);
}
