//! The element tree: qualified names, element content, and elements.

use vstd::prelude::*;

verus! {

/// Mathematical model of a [`Name`].
pub struct NameView {
    pub local_name: Seq<char>,
    pub namespace: Option<Seq<char>>,
    pub prefix: Option<Seq<char>>,
}

/// Mathematical model of an [`ElemContent`].
pub enum ContentView {
    Text(Seq<char>),
    Children(Seq<ElementView>),
}

/// Mathematical model of an [`Element`].
pub struct ElementView {
    pub name: NameView,
    pub content: ContentView,
}

/// A namespace-qualified identifier.
pub struct Name {
    pub local_name: String,
    pub namespace: Option<String>,
    pub prefix: Option<String>,
}

/// What an element holds: literal text, or an ordered run of child elements.
pub enum ElemContent {
    Text(String),
    Children(Vec<Element>),
}

/// A node of the tree: a name and its content.
pub struct Element {
    pub name: Name,
    pub content: ElemContent,
}

/// The model of an optional string.
pub open spec fn opt_view(s: Option<String>) -> Option<Seq<char>> {
    match s {
        Some(x) => Some(x@),
        None => None,
    }
}

impl View for Name {
    type V = NameView;

    open spec fn view(&self) -> NameView {
        NameView {
            local_name: self.local_name@,
            namespace: opt_view(self.namespace),
            prefix: opt_view(self.prefix),
        }
    }
}

/// The model of an element: the model of its name, and its text or the
/// models of its children.
pub open spec fn element_view(e: Element) -> ElementView
    decreases e, 1int,
{
    ElementView {
        name: e.name@,
        content: match e.content {
            ElemContent::Text(t) => ContentView::Text(t@),
            ElemContent::Children(v) => ContentView::Children(elements_view(v@)),
        },
    }
}

/// The models of a run of elements, in order.
pub open spec fn elements_view(elements: Seq<Element>) -> Seq<ElementView>
    decreases elements, 0int,
{
    if elements.len() == 0 {
        Seq::empty()
    } else {
        elements_view(elements.drop_last()).push(element_view(elements.last()))
    }
}

impl View for Element {
    type V = ElementView;

    open spec fn view(&self) -> ElementView {
        element_view(*self)
    }
}

/// The models of a run of elements, index by index.
pub open spec fn views_of(elements: Seq<Element>) -> Seq<ElementView> {
    Seq::new(elements.len(), |i: int| elements[i]@)
}

/// `elements_view` takes the model of each element in place.
pub proof fn lemma_elements_view(elements: Seq<Element>)
    ensures
        elements_view(elements) == views_of(elements),
    decreases elements.len(),
{
    if elements.len() > 0 {
        lemma_elements_view(elements.drop_last());
    }
    assert(elements_view(elements) =~= views_of(elements));
}

impl NameView {
    /// A prefix is only meaningful together with the namespace it is bound to.
    pub open spec fn wf(self) -> bool {
        self.prefix is Some ==> self.namespace is Some
    }

    /// Semantic identity: the local name and the namespace. The prefix is a
    /// serialization hint and takes no part in it.
    pub open spec fn same_identity(self, other: NameView) -> bool {
        self.local_name == other.local_name && self.namespace == other.namespace
    }

    /// Whether this name is `local_name` in the namespace `namespace`.
    pub open spec fn is(self, local_name: Seq<char>, namespace: Seq<char>) -> bool {
        self.local_name == local_name && self.namespace == Some(namespace)
    }
}

impl ElementView {
    /// Every name in the tree is well formed.
    pub open spec fn wf(self) -> bool
        decreases self,
    {
        &&& self.name.wf()
        &&& match self.content {
            ContentView::Text(_) => true,
            ContentView::Children(c) => forall|i: int| 0 <= i < c.len() ==> (#[trigger] c[i]).wf(),
        }
    }

    /// The element may take another child: it holds no text.
    pub open spec fn accepts_child(self) -> bool {
        self.content is Children
    }

    /// The element may take text: it holds text already, or nothing at all.
    pub open spec fn accepts_text(self) -> bool {
        match self.content {
            ContentView::Text(_) => true,
            ContentView::Children(c) => c.len() == 0,
        }
    }

    /// The element after `child` was appended to its children.
    pub open spec fn with_child(self, child: ElementView) -> ElementView {
        match self.content {
            ContentView::Text(_) => self,
            ContentView::Children(c) => ElementView {
                name: self.name,
                content: ContentView::Children(c.push(child)),
            },
        }
    }

    /// The element after `text` was added to its text.
    pub open spec fn with_text(self, text: Seq<char>) -> ElementView {
        match self.content {
            ContentView::Text(t) => ElementView { name: self.name, content: ContentView::Text(t + text) },
            ContentView::Children(_) => ElementView { name: self.name, content: ContentView::Text(text) },
        }
    }

    /// The children, or no children for a text leaf.
    pub open spec fn children(self) -> Seq<ElementView> {
        match self.content {
            ContentView::Text(_) => Seq::empty(),
            ContentView::Children(c) => c,
        }
    }
}

/// The first element of `children`, in document order, whose name is
/// `local_name` in the namespace `namespace`.
pub open spec fn first_named(
    children: Seq<ElementView>,
    local_name: Seq<char>,
    namespace: Seq<char>,
) -> Option<ElementView>
    decreases children.len(),
{
    if children.len() == 0 {
        None
    } else if children.first().name.is(local_name, namespace) {
        Some(children.first())
    } else {
        first_named(children.drop_first(), local_name, namespace)
    }
}

/// Where index `i` holds the first element of that name, `first_named` finds
/// it.
pub proof fn lemma_first_named_found(
    children: Seq<ElementView>,
    local_name: Seq<char>,
    namespace: Seq<char>,
    i: int,
)
    requires
        0 <= i < children.len(),
        children[i].name.is(local_name, namespace),
        forall|j: int| 0 <= j < i ==> !(#[trigger] children[j]).name.is(local_name, namespace),
    ensures
        first_named(children, local_name, namespace) == Some(children[i]),
    decreases children.len(),
{
    if i > 0 {
        let rest = children.drop_first();
        assert(children.first() == children[0]);
        assert forall|j: int| 0 <= j < i - 1 implies !(#[trigger] rest[j]).name.is(
            local_name,
            namespace,
        ) by {
            assert(rest[j] == children[j + 1]);
        }
        assert(rest[i - 1] == children[i]);
        lemma_first_named_found(rest, local_name, namespace, i - 1);
    }
}

/// Where no element has that name, `first_named` finds nothing.
pub proof fn lemma_first_named_absent(
    children: Seq<ElementView>,
    local_name: Seq<char>,
    namespace: Seq<char>,
)
    requires
        forall|j: int|
            0 <= j < children.len() ==> !(#[trigger] children[j]).name.is(local_name, namespace),
    ensures
        first_named(children, local_name, namespace) is None,
    decreases children.len(),
{
    if children.len() > 0 {
        let rest = children.drop_first();
        assert(children.first() == children[0]);
        assert forall|j: int| 0 <= j < rest.len() implies !(#[trigger] rest[j]).name.is(
            local_name,
            namespace,
        ) by {
            assert(rest[j] == children[j + 1]);
        }
        lemma_first_named_absent(rest, local_name, namespace);
    }
}

/// Text and children exclude each other: an element that took text takes no
/// child, and an element that took a child takes no text. Neither step ever
/// leaves an element with both.
pub proof fn lemma_text_and_children_exclude(e: ElementView, text: Seq<char>, child: ElementView)
    ensures
        e.accepts_text() ==> !e.with_text(text).accepts_child(),
        e.accepts_text() ==> e.with_text(text).content is Text,
        e.accepts_child() ==> !e.with_child(child).accepts_text(),
        e.accepts_child() ==> e.with_child(child).content is Children,
{
    if e.accepts_child() {
        let c = e.content->Children_0;
        assert(c.push(child).len() == c.len() + 1);
    }
}

/// Appending a well-formed child to a well-formed element, or text to one,
/// leaves it well formed.
pub proof fn lemma_wf_preserved(e: ElementView, text: Seq<char>, child: ElementView)
    requires
        e.wf(),
    ensures
        e.with_text(text).wf(),
        child.wf() ==> e.with_child(child).wf(),
{
    if child.wf() {
        match e.content {
            ContentView::Text(_) => {},
            ContentView::Children(c) => {
                let after = c.push(child);
                assert forall|i: int| 0 <= i < after.len() implies (#[trigger] after[i]).wf() by {
                    if i < c.len() {
                        assert(after[i] == c[i]);
                    }
                }
            },
        }
    }
}

impl Name {
    /// Whether this name is `local_name` in the namespace `namespace`,
    /// whatever its prefix.
    pub fn is(&self, local_name: &str, namespace: &str) -> (b: bool)
        ensures
            b == self@.is(local_name@, namespace@),
    {
        let local = local_name.to_owned();
        if self.local_name != local {
            return false;
        }
        match &self.namespace {
            Some(uri) => {
                let wanted = namespace.to_owned();
                *uri == wanted
            },
            None => false,
        }
    }
}

impl Element {
    /// The children as they are stored, or none for a text leaf.
    pub open spec fn child_elements(&self) -> Seq<Element> {
        match self.content {
            ElemContent::Text(_) => Seq::empty(),
            ElemContent::Children(v) => v@,
        }
    }

    /// The model's children are the models of the stored children.
    pub proof fn lemma_view_children(&self)
        ensures
            self@.children() == views_of(self.child_elements()),
            self@.name == self.name@,
            self.content is Text <==> self@.content is Text,
            self.content matches ElemContent::Text(t) ==> self@.content == ContentView::Text(t@),
            self.content matches ElemContent::Children(v) ==> self@.content == ContentView::Children(
                views_of(v@),
            ),
    {
        lemma_elements_view(self.child_elements());
        assert(self@.children() =~= views_of(self.child_elements()));
    }

    /// An element without namespace and without content.
    pub fn new(local_name: &str) -> (e: Element)
        ensures
            e@ == (ElementView {
                name: NameView { local_name: local_name@, namespace: None, prefix: None },
                content: ContentView::Children(Seq::empty()),
            }),
            e@.wf(),
    {
        let e = Element {
            name: Name { local_name: local_name.to_owned(), namespace: None, prefix: None },
            content: ElemContent::Children(Vec::new()),
        };
        proof {
            e.lemma_view_children();
            assert(views_of(e.child_elements()) =~= Seq::<ElementView>::empty());
        }
        e
    }

    /// An element whose namespace is declared as the default namespace, with
    /// no prefix.
    pub fn new_default_ns(local_name: &str, namespace_uri: &str) -> (e: Element)
        ensures
            e@ == (ElementView {
                name: NameView {
                    local_name: local_name@,
                    namespace: Some(namespace_uri@),
                    prefix: None,
                },
                content: ContentView::Children(Seq::empty()),
            }),
            e@.wf(),
    {
        let e = Element {
            name: Name {
                local_name: local_name.to_owned(),
                namespace: Some(namespace_uri.to_owned()),
                prefix: None,
            },
            content: ElemContent::Children(Vec::new()),
        };
        proof {
            e.lemma_view_children();
            assert(views_of(e.child_elements()) =~= Seq::<ElementView>::empty());
        }
        e
    }

    /// An element whose namespace is bound to an explicit prefix.
    pub fn new_ns_prefix(local_name: &str, namespace_uri: &str, prefix: &str) -> (e: Element)
        ensures
            e@ == (ElementView {
                name: NameView {
                    local_name: local_name@,
                    namespace: Some(namespace_uri@),
                    prefix: Some(prefix@),
                },
                content: ContentView::Children(Seq::empty()),
            }),
            e@.wf(),
    {
        let e = Element {
            name: Name {
                local_name: local_name.to_owned(),
                namespace: Some(namespace_uri.to_owned()),
                prefix: Some(prefix.to_owned()),
            },
            content: ElemContent::Children(Vec::new()),
        };
        proof {
            e.lemma_view_children();
            assert(views_of(e.child_elements()) =~= Seq::<ElementView>::empty());
        }
        e
    }

    /// Whether `push_child` may be called: the element holds no text.
    pub fn accepts_child(&self) -> (b: bool)
        ensures
            b == self@.accepts_child(),
    {
        proof {
            self.lemma_view_children();
        }
        match &self.content {
            ElemContent::Text(_) => false,
            ElemContent::Children(_) => true,
        }
    }

    /// Whether `push_text` may be called: the element holds text, or nothing.
    pub fn accepts_text(&self) -> (b: bool)
        ensures
            b == self@.accepts_text(),
    {
        proof {
            self.lemma_view_children();
        }
        match &self.content {
            ElemContent::Text(_) => true,
            ElemContent::Children(v) => v.len() == 0,
        }
    }

    /// Appends `child` after the children already there.
    pub fn push_child(&mut self, child: Element)
        requires
            old(self)@.accepts_child(),
        ensures
            final(self)@ == old(self)@.with_child(child@),
            final(self)@.accepts_child(),
            !final(self)@.accepts_text(),
            old(self)@.wf() && child@.wf() ==> final(self)@.wf(),
    {
        proof {
            self.lemma_view_children();
        }
        let ghost before = self.child_elements();
        match &mut self.content {
            ElemContent::Children(v) => {
                v.push(child);
            },
            ElemContent::Text(_) => {
                vstd::pervasive::unreached::<()>();
            },
        }
        proof {
            self.lemma_view_children();
            assert(views_of(self.child_elements()) =~= views_of(before).push(child@));
            if old(self)@.wf() {
                lemma_wf_preserved(old(self)@, Seq::empty(), child@);
            }
        }
    }

    /// Adds `text` to the element's text.
    pub fn push_text(&mut self, text: &str)
        requires
            old(self)@.accepts_text(),
        ensures
            final(self)@ == old(self)@.with_text(text@),
            final(self)@.accepts_text(),
            !final(self)@.accepts_child(),
            old(self)@.wf() ==> final(self)@.wf(),
    {
        proof {
            self.lemma_view_children();
        }
        match &mut self.content {
            ElemContent::Text(t) => {
                t.append(text);
            },
            ElemContent::Children(_) => {
                self.content = ElemContent::Text(text.to_owned());
            },
        }
        proof {
            self.lemma_view_children();
            if old(self)@.wf() {
                lemma_wf_preserved(old(self)@, text@, old(self)@);
            }
        }
    }

    /// The text of a text leaf; nothing for an element that holds children.
    pub fn text(&self) -> (t: Option<&str>)
        ensures
            match self@.content {
                ContentView::Text(s) => t matches Some(x) && x@ == s,
                ContentView::Children(_) => t is None,
            },
    {
        proof {
            self.lemma_view_children();
        }
        match &self.content {
            ElemContent::Text(t) => Some(t.as_str()),
            ElemContent::Children(_) => None,
        }
    }

    /// The first direct child, in document order, for which `pred` holds.
    pub fn first_child_where<F: Fn(&Element) -> bool>(&self, pred: F) -> (found: Option<&Element>)
        requires
            forall|i: int|
                0 <= i < self.child_elements().len() ==> call_requires(
                    pred,
                    (&#[trigger] self.child_elements()[i],),
                ),
        ensures
            match found {
                Some(child) => exists|i: int|
                    {
                        &&& 0 <= i < self.child_elements().len()
                        &&& *child == #[trigger] self.child_elements()[i]
                        &&& call_ensures(pred, (&self.child_elements()[i],), true)
                        &&& forall|j: int|
                            0 <= j < i ==> call_ensures(
                                pred,
                                (&#[trigger] self.child_elements()[j],),
                                false,
                            )
                    },
                None => forall|j: int|
                    0 <= j < self.child_elements().len() ==> call_ensures(
                        pred,
                        (&#[trigger] self.child_elements()[j],),
                        false,
                    ),
            },
    {
        match &self.content {
            ElemContent::Text(_) => None,
            ElemContent::Children(v) => {
                let mut i: usize = 0;
                assert forall|k: int| 0 <= k < v.len() implies call_requires(
                    pred,
                    (&#[trigger] v@[k],),
                ) by {
                    assert(v@[k] == self.child_elements()[k]);
                }
                while i < v.len()
                    invariant
                        i <= v.len(),
                        v@ == self.child_elements(),
                        forall|k: int|
                            0 <= k < v.len() ==> call_requires(pred, (&#[trigger] v@[k],)),
                        forall|j: int|
                            0 <= j < i ==> call_ensures(pred, (&#[trigger] v@[j],), false),
                    decreases v.len() - i,
                {
                    if pred(&v[i]) {
                        return Some(&v[i]);
                    }
                    i = i + 1;
                }
                None
            },
        }
    }

    /// The first direct child, in document order, whose name is `local_name`
    /// in the namespace `namespace`; the prefix of a child plays no part.
    pub fn first_child_named(&self, local_name: &str, namespace: &str) -> (found: Option<&Element>)
        ensures
            match first_named(self@.children(), local_name@, namespace@) {
                Some(child) => found matches Some(c) && c@ == child,
                None => found is None,
            },
    {
        proof {
            self.lemma_view_children();
        }
        let has_name = |child: &Element| -> (b: bool)
            ensures
                b == child@.name.is(local_name@, namespace@),
            { child.name.is(local_name, namespace) };
        let found = self.first_child_where(has_name);
        proof {
            let views = self@.children();
            let stored = self.child_elements();
            match found {
                Some(c) => {
                    let i = choose|i: int|
                        0 <= i < stored.len() && *c == #[trigger] stored[i]
                            && stored[i]@.name.is(local_name@, namespace@) && forall|j: int|
                            0 <= j < i ==> !(#[trigger] stored[j])@.name.is(
                                local_name@,
                                namespace@,
                            );
                    assert forall|j: int| 0 <= j < i implies !(#[trigger] views[j]).name.is(
                        local_name@,
                        namespace@,
                    ) by {
                        assert(views[j] == stored[j]@);
                    }
                    assert(views[i] == stored[i]@);
                    lemma_first_named_found(views, local_name@, namespace@, i);
                },
                None => {
                    assert forall|j: int| 0 <= j < views.len() implies !(#[trigger] views[j]).name.is(
                        local_name@,
                        namespace@,
                    ) by {
                        assert(views[j] == stored[j]@);
                        assert(!stored[j]@.name.is(local_name@, namespace@));
                    }
                    lemma_first_named_absent(views, local_name@, namespace@);
                },
            }
        }
        found
    }

    /// The first direct child, whatever its name; nothing for a text leaf or
    /// an element without children.
    pub fn first_child(&self) -> (found: Option<&Element>)
        ensures
            self@.children().len() == 0 ==> found is None,
            self@.children().len() > 0 ==> (found matches Some(c) && c@ == self@.children()[0]),
    {
        proof {
            self.lemma_view_children();
        }
        match &self.content {
            ElemContent::Text(_) => None,
            ElemContent::Children(v) => {
                if v.len() == 0 {
                    None
                } else {
                    Some(&v[0])
                }
            },
        }
    }
}

} // verus!