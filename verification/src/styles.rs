//! The specified style of a node: its defaults, its initialization and its
//! recomputation from a set of style rules.

use vstd::prelude::*;
use std::sync::Arc;
use crate::dom::{ElementKind, NodeKind};
use crate::join::{ForkJoin, JoinStep};
use crate::layout::{LayoutData, Node, Subtree};
use crate::values::{opaque, white, Color, DisplayType, Unit};

verus! {

/// The style attributes that were specified for a node. An attribute that no
/// default and no rule has set is `None`.
#[derive(Clone, Copy, Debug, PartialEq, Eq, Structural)]
pub struct SpecifiedStyle {
    pub background_color: Option<Color>,
    pub display_type: Option<DisplayType>,
    pub font_size: Option<Unit>,
    pub height: Option<Unit>,
    pub text_color: Option<Color>,
    pub width: Option<Unit>,
}

/// The display type of a node of the given kind where no rule sets one.
///
/// Text is inline, and so are images and the elements without a kind of their
/// own. A generic container is a block. What is never rendered (the header, a
/// script, a comment, the document type) has none.
pub open spec fn default_display(kind: NodeKind) -> DisplayType {
    match kind {
        NodeKind::Text => DisplayType::Inline,
        NodeKind::Element(ElementKind::Div) => DisplayType::Block,
        NodeKind::Element(ElementKind::Head) => DisplayType::DisplayNone,
        NodeKind::Element(ElementKind::Image) => DisplayType::Inline,
        NodeKind::Element(ElementKind::Script) => DisplayType::DisplayNone,
        NodeKind::Element(ElementKind::Unknown) => DisplayType::Inline,
        NodeKind::Comment => DisplayType::DisplayNone,
        NodeKind::Doctype => DisplayType::DisplayNone,
    }
}

impl NodeKind {
    /// Whether a node of this kind can be rendered, and so has a colour.
    pub open spec fn is_styleable(self) -> bool {
        self is Text || self is Element
    }

    /// The colour of the content of a node where no rule sets one. Only what
    /// can be rendered has a colour.
    pub fn default_color(&self) -> (color: Color)
        requires
            self.is_styleable(),
        ensures
            color == opaque(255, 255, 255),
    {
        match self {
            NodeKind::Text => white(),
            NodeKind::Element(_) => white(),
            NodeKind::Comment | NodeKind::Doctype => unreached(),
        }
    }

    /// The display type of a node where no rule sets one.
    pub fn default_display_type(&self) -> (display: DisplayType)
        ensures
            display == default_display(*self),
    {
        match self {
            NodeKind::Text => DisplayType::Inline,
            NodeKind::Element(element) => match element {
                ElementKind::Div => DisplayType::Block,
                ElementKind::Head => DisplayType::DisplayNone,
                ElementKind::Image => DisplayType::Inline,
                ElementKind::Script => DisplayType::DisplayNone,
                ElementKind::Unknown => DisplayType::Inline,
            },
            NodeKind::Comment | NodeKind::Doctype => DisplayType::DisplayNone,
        }
    }

    /// The width of a node where no rule sets one: left to layout.
    pub fn default_width(&self) -> (width: Unit)
        ensures
            width == Unit::Auto,
    {
        Unit::Auto
    }

    /// The height of a node where no rule sets one: left to layout.
    pub fn default_height(&self) -> (height: Unit)
        ensures
            height == Unit::Auto,
    {
        Unit::Auto
    }
}

/// The style a node of the given kind starts from: the display type is the
/// default of the kind and nothing else is set.
pub open spec fn empty_style(kind: NodeKind) -> SpecifiedStyle {
    SpecifiedStyle {
        background_color: None,
        display_type: Some(default_display(kind)),
        font_size: None,
        height: None,
        text_color: None,
        width: None,
    }
}

/// The style that a node is initialized with before any rule is matched.
///
/// The display type is set at once so that matching can stop early below a
/// node that is not displayed.
pub fn empty_style_for_node_kind(kind: NodeKind) -> (style: SpecifiedStyle)
    ensures
        style == empty_style(kind),
{
    let display_type = kind.default_display_type();
    SpecifiedStyle {
        background_color: None,
        display_type: Some(display_type),
        font_size: None,
        height: None,
        text_color: None,
        width: None,
    }
}

/// The auxiliary data that initialization attaches to a node of the given
/// kind: the empty style of the kind and no box.
pub open spec fn initial_layout_data(kind: NodeKind) -> LayoutData {
    LayoutData { specified_style: empty_style(kind), layout_box: None }
}

impl Subtree {
    /// The subtree after initialization: every node that had no auxiliary
    /// data has the initial data of its kind, and nothing else has changed.
    pub open spec fn initialized(self) -> Subtree
        decreases self,
    {
        Subtree {
            kind: self.kind,
            aux: Some(
                match self.aux {
                    Some(data) => data,
                    None => initial_layout_data(self.kind),
                },
            ),
            children: Seq::new(
                self.children.len(),
                |i: int|
                    if 0 <= i < self.children.len() {
                        self.children[i].initialized()
                    } else {
                        arbitrary()
                    },
            ),
        }
    }

    /// What initialization attaches to the node itself: the initial data of
    /// its kind if it has none yet.
    pub open spec fn created_here(self) -> Seq<LayoutData> {
        if self.aux is None {
            seq![initial_layout_data(self.kind)]
        } else {
            Seq::empty()
        }
    }

    /// What initialization attaches in the subtree: the data of the node
    /// itself, then those of each child's subtree, in the order of the
    /// children.
    pub open spec fn created(self) -> Seq<LayoutData>
        decreases self, 0nat,
    {
        self.created_here() + Self::created_among(self.children, self.children.len())
    }

    /// What initialization attaches in the first `n` of `trees`, in order.
    pub open spec fn created_among(trees: Seq<Subtree>, n: nat) -> Seq<LayoutData>
        decreases trees, n,
    {
        if n == 0 || n > trees.len() {
            Seq::empty()
        } else {
            Self::created_among(trees, (n - 1) as nat) + trees[n - 1].created()
        }
    }
}

impl Node {
    /// Gives the node its auxiliary data, with the empty style of its kind,
    /// unless it has some already. Returns the data that were attached: one
    /// element, or none.
    pub fn initialize_style(&mut self) -> (created: Vec<LayoutData>)
        ensures
            final(self).kind == old(self).kind,
            final(self).children == old(self).children,
            old(self).aux is Some ==> final(self).aux == old(self).aux && created@.len() == 0,
            old(self).aux is None ==> final(self).aux == Some(
                initial_layout_data(old(self).kind),
            ) && created@ == seq![initial_layout_data(old(self).kind)],
    {
        if !self.has_aux() {
            let node_kind = self.kind;
            let the_layout_data = LayoutData {
                specified_style: empty_style_for_node_kind(node_kind),
                layout_box: None,
            };
            self.set_aux(the_layout_data);
            let mut created = Vec::new();
            created.push(the_layout_data);
            created
        } else {
            Vec::new()
        }
    }

    /// Initializes every node of the subtree, the node first and then its
    /// children in order, each child with all of its subtree before the
    /// next. Returns the data that were attached, in that order.
    pub fn initialize_style_for_subtree(&mut self) -> (created: Vec<LayoutData>)
        ensures
            final(self)@ == old(self)@.initialized(),
            created@ == old(self)@.created(),
        decreases *old(self),
    {
        let mut handles = self.initialize_style();
        let count = self.children.len();
        let mut i: usize = 0;
        while i < count
            invariant
                i <= count,
                count == self.children@.len(),
                count == old(self).children@.len(),
                self.kind == old(self).kind,
                self.aux == old(self)@.initialized().aux,
                forall|j: int|
                    0 <= j < i ==> (#[trigger] self.children@[j])@
                        == old(self).children@[j]@.initialized(),
                forall|j: int|
                    i <= j < count ==> (#[trigger] self.children@[j]) == old(self).children@[j],
                handles@ == old(self)@.created_here() + Subtree::created_among(
                    old(self)@.children,
                    i as nat,
                ),
            decreases count - i,
        {
            let mut more = self.children[i].initialize_style_for_subtree();
            handles.append(&mut more);
            assert(handles@ =~= old(self)@.created_here() + (Subtree::created_among(
                old(self)@.children,
                i as nat,
            ) + old(self)@.children[i as int].created()));
            i = i + 1;
        }
        assert(self@.children =~= old(self)@.initialized().children);
        handles
    }

    /// A copy of the specified style of the node.
    pub fn get_specified_style(&self) -> (style: SpecifiedStyle)
        requires
            self.aux is Some,
        ensures
            style == self.aux->0.specified_style,
    {
        self.aux().specified_style
    }
}

/// Another handle to the same rule set.
///
/// Calls `Arc::clone`, which makes a second pointer to the allocation that
/// the first one points to and copies nothing of what is in it: the new
/// handle stands for the very same value.
#[verifier::external_body]
fn clone_handle<R>(styles: &Arc<R>) -> (handle: Arc<R>)
    ensures
        handle == *styles,
{
    Arc::clone(styles)
}

/// What one run of `matcher` under `rules` may make of a style: the relation
/// that holds of the kind of a node, its style before the run and its style
/// after it.
pub open spec fn match_step<R, M: Fn(NodeKind, &R, SpecifiedStyle) -> SpecifiedStyle>(
    rules: R,
    matcher: M,
) -> spec_fn(NodeKind, SpecifiedStyle, SpecifiedStyle) -> bool {
    |kind: NodeKind, style: SpecifiedStyle, fresh: SpecifiedStyle|
        call_ensures(matcher, (kind, &rules, style), fresh)
}

/// Where `matcher` may be run under `rules`: the kinds of node and the styles
/// that it accepts.
pub open spec fn match_domain<R, M: Fn(NodeKind, &R, SpecifiedStyle) -> SpecifiedStyle>(
    rules: R,
    matcher: M,
) -> spec_fn(NodeKind, SpecifiedStyle) -> bool {
    |kind: NodeKind, style: SpecifiedStyle| call_requires(matcher, (kind, &rules, style))
}

impl LayoutData {
    /// `after` is what one match step makes of these data for a node of the
    /// given kind: the style is one that `step` allows, and the box slot is
    /// the same.
    pub open spec fn restyled_to(
        self,
        after: LayoutData,
        kind: NodeKind,
        step: spec_fn(NodeKind, SpecifiedStyle, SpecifiedStyle) -> bool,
    ) -> bool {
        &&& after.layout_box == self.layout_box
        &&& step(kind, self.specified_style, after.specified_style)
    }

    /// Matches the rules against one node: hands the kind of the node, the
    /// rules and the present style to `matcher` and stores the style that it
    /// returns.
    pub fn match_css_style<R, M: Fn(NodeKind, &R, SpecifiedStyle) -> SpecifiedStyle>(
        &mut self,
        kind: NodeKind,
        rules: &R,
        matcher: &M,
    )
        requires
            match_domain(*rules, *matcher)(kind, old(self).specified_style),
        ensures
            old(self).restyled_to(*final(self), kind, match_step(*rules, *matcher)),
    {
        self.specified_style = matcher(kind, rules, self.specified_style);
    }
}

impl Subtree {
    /// Every node of the subtree that has a style lies in `domain` with it.
    pub open spec fn accepted_by(self, domain: spec_fn(NodeKind, SpecifiedStyle) -> bool) -> bool
        decreases self,
    {
        &&& self.aux matches Some(data) ==> domain(self.kind, data.specified_style)
        &&& forall|i: int|
            0 <= i < self.children.len() ==> (#[trigger] self.children[i]).accepted_by(domain)
    }

    /// `after` is this subtree with every style recomputed: it has the same
    /// shape and the same kinds, and the data of each node are what one match
    /// step makes of the data of the node in the same place, and of them
    /// alone.
    pub open spec fn restyled_to(
        self,
        after: Subtree,
        step: spec_fn(NodeKind, SpecifiedStyle, SpecifiedStyle) -> bool,
    ) -> bool
        decreases self,
    {
        &&& after.kind == self.kind
        &&& match self.aux {
            Some(data) => after.aux matches Some(fresh) && data.restyled_to(fresh, self.kind, step),
            None => after.aux is None,
        }
        &&& after.children.len() == self.children.len()
        &&& forall|i: int|
            0 <= i < self.children.len() ==> (#[trigger] self.children[i]).restyled_to(
                after.children[i],
                step,
            )
    }
}

impl Node {
    /// Matches the rules against every node of the subtree, and returns when
    /// all of them have their new style.
    ///
    /// The call takes its steps in the order that `ForkJoin` gives: one task
    /// for the subtree of each child, each with a handle of its own to the
    /// rule set, then the match of the node itself, then one wait for each
    /// task. Here a task is run where it is started, on the calling thread,
    /// and has finished by the time the call would wait for it. The style of
    /// a node is read and written by the match of that node alone, so a run
    /// that lets the tasks work side by side ends in the same result.
    pub fn recompute_style_for_subtree<R, M: Fn(NodeKind, &R, SpecifiedStyle) -> SpecifiedStyle>(
        &mut self,
        styles: Arc<R>,
        matcher: &M,
    )
        requires
            old(self)@.is_initialized(),
            old(self)@.accepted_by(match_domain(*styles, *matcher)),
        ensures
            old(self)@.restyled_to(final(self)@, match_step(*styles, *matcher)),
        decreases *old(self),
    {
        let count = self.children.len();
        let mut join = ForkJoin::new(count);
        loop
            invariant
                join.children() == count,
                join.position() <= 2 * count + 1,
                count == self.children@.len(),
                count == old(self).children@.len(),
                self.kind == old(self).kind,
                old(self)@.is_initialized(),
                old(self)@.accepted_by(match_domain(*styles, *matcher)),
                forall|j: int|
                    0 <= j < count && j < join.position() ==> (#[trigger] old(self).children@[j])@
                        .restyled_to(self.children@[j]@, match_step(*styles, *matcher)),
                forall|j: int|
                    join.position() <= j < count ==> (#[trigger] self.children@[j])
                        == old(self).children@[j],
                join.position() <= count ==> self.aux == old(self).aux,
                join.position() > count ==> self.aux is Some && old(self).aux->0.restyled_to(
                    self.aux->0,
                    self.kind,
                    match_step(*styles, *matcher),
                ),
            ensures
                join.position() > 2 * count,
            decreases 2 * count + 1 - join.position(),
        {
            match join.next_step() {
                JoinStep::Spawn(child) => {
                    let new_styles = clone_handle(&styles);
                    assert(old(self)@.children[child as int].is_initialized());
                    assert(old(self)@.children[child as int].accepted_by(
                        match_domain(*styles, *matcher),
                    ));
                    self.children[child].recompute_style_for_subtree(new_styles, matcher);
                },
                JoinStep::MatchOwnStyle => match &mut self.aux {
                    Some(data) => data.match_css_style(self.kind, &*styles, matcher),
                    None => unreached(),
                },
                // Every task ran where it was started, so each is done.
                JoinStep::AwaitAck => {},
                JoinStep::Return => {
                    break;
                },
            }
        }
        assert forall|j: int| 0 <= j < count implies (#[trigger] old(self)@.children[j])
            .restyled_to(self@.children[j], match_step(*styles, *matcher)) by {
            assert(old(self).children@[j]@.restyled_to(
                self.children@[j]@,
                match_step(*styles, *matcher),
            ));
        }
    }
}

} // verus!
