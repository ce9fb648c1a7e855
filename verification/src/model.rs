//! The declaration-model builder: walks a declaration tree and produces
//! render-ready class models under the active method-selection strategy.

use vstd::prelude::*;

pub mod factory;

use crate::entity::{ClassDecl, Entity, EntityData, MethodDecl, RefQualifier};
use crate::log::Logger;
use crate::strutil::views_of;
use crate::MethodsToMockStrategy;

verus! {

/// One argument of a mocked method.
#[derive(Debug)]
pub struct Argument {
    /// Exact source spelling of the type when recoverable, else the parser's
    /// display name.
    pub type_text: String,
    pub name: Option<String>,
}

/// Abstract value of an `Argument`.
#[verifier::ext_equal]
pub struct ArgumentV {
    pub type_text: Seq<char>,
    pub name: Option<Seq<char>>,
}

impl View for Argument {
    type V = ArgumentV;

    open spec fn view(&self) -> ArgumentV {
        ArgumentV { type_text: self.type_text@, name: self.name.deep_view() }
    }
}

/// A method selected for mocking.
#[derive(Debug)]
pub struct MethodModel {
    pub name: String,
    /// Exact source spelling of the result type when recoverable.
    pub result_type: String,
    pub arguments: Vec<Argument>,
    pub is_const: bool,
    pub is_virtual: bool,
    pub is_pure_virtual: bool,
    pub is_static: bool,
    pub is_noexcept: bool,
    pub ref_qualifier: Option<RefQualifier>,
}

/// Abstract value of a `MethodModel`.
#[verifier::ext_equal]
pub struct MethodModelV {
    pub name: Seq<char>,
    pub result_type: Seq<char>,
    pub arguments: Seq<ArgumentV>,
    pub is_const: bool,
    pub is_virtual: bool,
    pub is_pure_virtual: bool,
    pub is_static: bool,
    pub is_noexcept: bool,
    pub ref_qualifier: Option<RefQualifier>,
}

impl View for MethodModel {
    type V = MethodModelV;

    open spec fn view(&self) -> MethodModelV {
        MethodModelV {
            name: self.name@,
            result_type: self.result_type@,
            arguments: self.arguments@.map_values(|a: Argument| a@),
            is_const: self.is_const,
            is_virtual: self.is_virtual,
            is_pure_virtual: self.is_pure_virtual,
            is_static: self.is_static,
            is_noexcept: self.is_noexcept,
            ref_qualifier: self.ref_qualifier,
        }
    }
}

/// A class selected for mocking, with the namespaces that enclose it.
#[derive(Debug)]
pub struct ClassModel {
    pub name: String,
    /// Enclosing namespaces, outermost first.
    pub namespaces: Vec<String>,
    /// The methods the active strategy selects, in declaration order.
    pub methods: Vec<MethodModel>,
}

/// Abstract value of a `ClassModel`.
#[verifier::ext_equal]
pub struct ClassModelV {
    pub name: Seq<char>,
    pub namespaces: Seq<Seq<char>>,
    pub methods: Seq<MethodModelV>,
}

impl View for ClassModel {
    type V = ClassModelV;

    open spec fn view(&self) -> ClassModelV {
        ClassModelV {
            name: self.name@,
            namespaces: views_of(self.namespaces@),
            methods: self.methods@.map_values(|m: MethodModel| m@),
        }
    }
}

/// The abstract values of a sequence of class models.
pub open spec fn class_views(cs: Seq<ClassModel>) -> Seq<ClassModelV> {
    cs.map_values(|c: ClassModel| c@)
}

/// The source text as an abstract value.
pub open spec fn text_view(t: Option<String>) -> Option<Seq<char>> {
    match t {
        Some(s) => Some(s@),
        None => None,
    }
}

/// Which methods a strategy selects, judged on the parser's own flags.
pub open spec fn spec_should_mock(strategy: MethodsToMockStrategy, m: MethodDecl) -> bool {
    match strategy {
        MethodsToMockStrategy::All => !m.is_static,
        MethodsToMockStrategy::AllVirtual => m.is_virtual,
        MethodsToMockStrategy::OnlyPureVirtual => m.is_pure_virtual,
    }
}

impl MethodsToMockStrategy {
    /// Whether the strategy selects a method.
    pub fn should_mock(self, method: &MethodDecl) -> (r: bool)
        ensures
            r == spec_should_mock(self, *method),
    {
        match self {
            MethodsToMockStrategy::All => !method.is_static,
            MethodsToMockStrategy::AllVirtual => method.is_virtual,
            MethodsToMockStrategy::OnlyPureVirtual => method.is_pure_virtual,
        }
    }
}

/// The models of the method children a strategy selects, in declaration
/// order.
pub open spec fn spec_selected_methods(
    children: Seq<Entity>,
    strategy: MethodsToMockStrategy,
    text: Option<Seq<char>>,
) -> Seq<MethodModelV>
    decreases children.len(),
{
    if children.len() == 0 {
        Seq::empty()
    } else {
        let rest = spec_selected_methods(children.drop_first(), strategy, text);
        match children[0].data {
            EntityData::Method(m) => if spec_should_mock(strategy, m) {
                seq![factory::spec_method_model(m, text)] + rest
            } else {
                rest
            },
            _ => rest,
        }
    }
}

/// The method declarations among the children that the strategy selects,
/// in declaration order.
pub open spec fn selected_method_decls(
    children: Seq<Entity>,
    strategy: MethodsToMockStrategy,
) -> Seq<MethodDecl>
    decreases children.len(),
{
    if children.len() == 0 {
        Seq::empty()
    } else {
        let rest = selected_method_decls(children.drop_first(), strategy);
        match children[0].data {
            EntityData::Method(m) => if spec_should_mock(strategy, m) {
                seq![m] + rest
            } else {
                rest
            },
            _ => rest,
        }
    }
}

/// Law: a class model holds exactly the models of the method children that
/// satisfy the strategy, one each, in declaration order; every selected
/// declaration satisfies the strategy.
pub proof fn lemma_selection_exact(
    children: Seq<Entity>,
    strategy: MethodsToMockStrategy,
    text: Option<Seq<char>>,
)
    ensures
        spec_selected_methods(children, strategy, text) == selected_method_decls(
            children,
            strategy,
        ).map_values(|m: MethodDecl| factory::spec_method_model(m, text)),
        forall|k: int|
            0 <= k < selected_method_decls(children, strategy).len() ==> spec_should_mock(
                strategy,
                #[trigger] selected_method_decls(children, strategy)[k],
            ),
    decreases children.len(),
{
    let f = |m: MethodDecl| factory::spec_method_model(m, text);
    if children.len() == 0 {
        assert(spec_selected_methods(children, strategy, text) =~= selected_method_decls(
            children,
            strategy,
        ).map_values(f));
    } else {
        lemma_selection_exact(children.drop_first(), strategy, text);
        let rest = selected_method_decls(children.drop_first(), strategy);
        match children[0].data {
            EntityData::Method(m) => {
                if spec_should_mock(strategy, m) {
                    assert((seq![m] + rest).map_values(f) =~= seq![f(m)] + rest.map_values(f));
                    assert(spec_selected_methods(children, strategy, text)
                        =~= selected_method_decls(children, strategy).map_values(f));
                }
            },
            _ => {},
        }
    }
}

/// Law: what each strategy admits, judged on the parser's flags: `All`
/// admits every non-static method, `AllVirtual` the virtual ones (pure or
/// not), `OnlyPureVirtual` only the pure-virtual ones.
pub proof fn lemma_strategy_meaning(m: MethodDecl)
    ensures
        spec_should_mock(MethodsToMockStrategy::All, m) == !m.is_static,
        spec_should_mock(MethodsToMockStrategy::AllVirtual, m) == m.is_virtual,
        spec_should_mock(MethodsToMockStrategy::OnlyPureVirtual, m) == m.is_pure_virtual,
{
}

/// Whether a child node is a method the strategy selects.
pub open spec fn entity_is_selected_method(e: Entity, strategy: MethodsToMockStrategy) -> bool {
    match e.data {
        EntityData::Method(m) => spec_should_mock(strategy, m),
        _ => false,
    }
}

/// A class is materialized iff it is a definition and at least one of its
/// method children satisfies the strategy.
pub open spec fn spec_class_qualifies(c: ClassDecl, strategy: MethodsToMockStrategy) -> bool {
    c.is_definition && exists|i: int|
        0 <= i < c.children@.len() && #[trigger] entity_is_selected_method(
            c.children@[i],
            strategy,
        )
}

/// The model of one qualifying class.
pub open spec fn spec_class_model(
    c: ClassDecl,
    namespaces: Seq<Seq<char>>,
    strategy: MethodsToMockStrategy,
    text: Option<Seq<char>>,
) -> ClassModelV {
    ClassModelV {
        name: c.name@,
        namespaces: namespaces,
        methods: spec_selected_methods(c.children@, strategy, text),
    }
}

/// The class models found in pre-order below one node: the node's own class,
/// when it qualifies, then those of its children that lie in the primary
/// file, with the namespace stack grown at namespace nodes.
pub open spec fn spec_classes_in(
    e: Entity,
    namespaces: Seq<Seq<char>>,
    strategy: MethodsToMockStrategy,
    text: Option<Seq<char>>,
) -> Seq<ClassModelV>
    decreases e, 1int,
{
    match e.data {
        EntityData::Class(c) => (if spec_class_qualifies(c, strategy) {
            seq![spec_class_model(c, namespaces, strategy, text)]
        } else {
            Seq::empty()
        }) + spec_classes_in_children(c.children@, namespaces, strategy, text),
        EntityData::Namespace(n) => spec_classes_in_children(
            n.children@,
            namespaces.push(n.name@),
            strategy,
            text,
        ),
        EntityData::Method(_) => Seq::empty(),
        EntityData::Other(cs) => spec_classes_in_children(cs@, namespaces, strategy, text),
    }
}

/// The class models found below a list of sibling nodes; children outside
/// the primary file are not entered.
pub open spec fn spec_classes_in_children(
    children: Seq<Entity>,
    namespaces: Seq<Seq<char>>,
    strategy: MethodsToMockStrategy,
    text: Option<Seq<char>>,
) -> Seq<ClassModelV>
    decreases children, 0int,
{
    if children.len() == 0 {
        Seq::empty()
    } else {
        (if children[0].in_main_file {
            spec_classes_in(children[0], namespaces, strategy, text)
        } else {
            Seq::empty()
        }) + spec_classes_in_children(children.drop_first(), namespaces, strategy, text)
    }
}

/// Walks a declaration tree, collecting the classes to mock in traversal
/// order while maintaining the stack of enclosing namespaces.
pub struct AstTraverser {
    factory: factory::ModelFactory,
    methods_to_mock: MethodsToMockStrategy,
    classes: Vec<ClassModel>,
    namespace_stack: Vec<String>,
}

impl AstTraverser {
    pub closed spec fn spec_text(self) -> Option<Seq<char>> {
        self.factory.spec_text()
    }

    pub closed spec fn spec_strategy(self) -> MethodsToMockStrategy {
        self.methods_to_mock
    }

    pub closed spec fn spec_classes(self) -> Seq<ClassModelV> {
        class_views(self.classes@)
    }

    pub closed spec fn spec_ns(self) -> Seq<Seq<char>> {
        views_of(self.namespace_stack@)
    }

    pub closed spec fn spec_verbose(self) -> bool {
        self.factory.spec_log().spec_verbose()
    }

    /// A traverser over one translation unit's tree, with the unit's source
    /// text cached for type reconstruction.
    pub fn new(
        file_contents: Option<String>,
        methods_to_mock: MethodsToMockStrategy,
        log: Logger,
    ) -> (r: Self)
        ensures
            r.spec_text() == text_view(file_contents),
            r.spec_strategy() == methods_to_mock,
            r.spec_classes() == Seq::<ClassModelV>::empty(),
            r.spec_ns() == Seq::<Seq<char>>::empty(),
            r.spec_verbose() == log.spec_verbose(),
    {
        let r = AstTraverser {
            factory: factory::ModelFactory::new(file_contents, log),
            methods_to_mock,
            classes: Vec::new(),
            namespace_stack: Vec::new(),
        };
        proof {
            assert(class_views(r.classes@) =~= Seq::<ClassModelV>::empty());
            assert(views_of(r.namespace_stack@) =~= Seq::<Seq<char>>::empty());
        }
        r
    }

    /// Collects the class models of the whole tree.
    pub fn traverse(self, root: &Entity) -> (r: (Vec<ClassModel>, Logger))
        ensures
            class_views(r.0@) == self.spec_classes() + spec_classes_in(
                *root,
                self.spec_ns(),
                self.spec_strategy(),
                self.spec_text(),
            ),
            r.1.spec_verbose() == self.spec_verbose(),
    {
        let mut s = self;
        s.traverse_recursive(root);
        let AstTraverser { factory, methods_to_mock: _, classes, namespace_stack: _ } = s;
        (classes, factory.into_log())
    }

    /// Whether at least one method child of the class satisfies the strategy.
    fn should_mock_class(&self, class: &ClassDecl) -> (r: bool)
        ensures
            r == exists|i: int|
                0 <= i < class.children@.len() && #[trigger] entity_is_selected_method(
                    class.children@[i],
                    self.spec_strategy(),
                ),
    {
        let mut i: usize = 0;
        while i < class.children.len()
            invariant
                i <= class.children@.len(),
                forall|j: int|
                    0 <= j < i ==> !entity_is_selected_method(
                        class.children@[j],
                        self.spec_strategy(),
                    ),
            decreases class.children@.len() - i,
        {
            if let EntityData::Method(m) = &class.children[i].data {
                if self.methods_to_mock.should_mock(m) {
                    proof {
                        assert(entity_is_selected_method(
                            class.children@[i as int],
                            self.spec_strategy(),
                        ));
                    }
                    return true;
                }
            }
            i = i + 1;
        }
        false
    }

    fn traverse_recursive(&mut self, entity: &Entity)
        ensures
            final(self).spec_strategy() == old(self).spec_strategy(),
            final(self).spec_text() == old(self).spec_text(),
            final(self).spec_verbose() == old(self).spec_verbose(),
            final(self).spec_ns() == old(self).spec_ns(),
            final(self).spec_classes() == old(self).spec_classes() + spec_classes_in(
                *entity,
                old(self).spec_ns(),
                old(self).spec_strategy(),
                old(self).spec_text(),
            ),
        decreases *entity, 1int,
    {
        match &entity.data {
            EntityData::Class(c) => {
                let ghost pre = self.spec_classes();
                if c.is_definition && self.should_mock_class(c) {
                    let cm = self.factory.class_from_entity(
                        c,
                        &self.namespace_stack,
                        self.methods_to_mock,
                    );
                    let ghost cls = self.classes@;
                    let ghost cmv = cm@;
                    self.classes.push(cm);
                    proof {
                        assert(class_views(self.classes@) =~= class_views(cls).push(cmv));
                        assert(class_views(cls).push(cmv) =~= class_views(cls) + seq![cmv]);
                    }
                }
                let ghost mid = self.spec_classes();
                self.traverse_children(&c.children);
                proof {
                    assert(self.spec_classes() =~= pre + spec_classes_in(
                        *entity,
                        old(self).spec_ns(),
                        old(self).spec_strategy(),
                        old(self).spec_text(),
                    ));
                }
            },
            EntityData::Namespace(n) => {
                let ghost ns0 = views_of(self.namespace_stack@);
                self.namespace_stack.push(n.name.clone());
                proof {
                    assert(views_of(self.namespace_stack@) =~= ns0.push(n.name@));
                }
                self.traverse_children(&n.children);
                let ghost mid = self.namespace_stack@;
                let _ = self.namespace_stack.pop();
                proof {
                    assert(views_of(mid) == ns0.push(n.name@));
                    assert(views_of(mid).len() == mid.len());
                    assert(mid.len() == ns0.len() + 1);
                    assert(self.namespace_stack@ =~= mid.subrange(0, mid.len() - 1));
                    assert forall|j: int| 0 <= j < ns0.len() implies views_of(
                        self.namespace_stack@,
                    )[j] == ns0[j] by {
                        assert(views_of(self.namespace_stack@)[j] == self.namespace_stack@[j]@);
                        assert(self.namespace_stack@[j] == mid[j]);
                        assert(views_of(mid)[j] == mid[j]@);
                    }
                    assert(views_of(self.namespace_stack@) =~= ns0);
                    assert(self.spec_classes() =~= old(self).spec_classes() + spec_classes_in(
                        *entity,
                        old(self).spec_ns(),
                        old(self).spec_strategy(),
                        old(self).spec_text(),
                    ));
                }
            },
            EntityData::Method(_) => {
                proof {
                    assert(self.spec_classes() =~= old(self).spec_classes() + spec_classes_in(
                        *entity,
                        old(self).spec_ns(),
                        old(self).spec_strategy(),
                        old(self).spec_text(),
                    ));
                }
            },
            EntityData::Other(cs) => {
                self.traverse_children(cs);
                proof {
                    assert(self.spec_classes() =~= old(self).spec_classes() + spec_classes_in(
                        *entity,
                        old(self).spec_ns(),
                        old(self).spec_strategy(),
                        old(self).spec_text(),
                    ));
                }
            },
        }
    }

    fn traverse_children(&mut self, children: &Vec<Entity>)
        ensures
            final(self).spec_strategy() == old(self).spec_strategy(),
            final(self).spec_text() == old(self).spec_text(),
            final(self).spec_verbose() == old(self).spec_verbose(),
            final(self).spec_ns() == old(self).spec_ns(),
            final(self).spec_classes() == old(self).spec_classes() + spec_classes_in_children(
                children@,
                old(self).spec_ns(),
                old(self).spec_strategy(),
                old(self).spec_text(),
            ),
        decreases children@, 0int,
    {
        let ghost base = self.spec_classes();
        let ghost ns0 = self.spec_ns();
        let ghost strat = self.spec_strategy();
        let ghost text = self.spec_text();
        let ghost verb = self.spec_verbose();
        let mut i: usize = 0;
        proof {
            assert(children@.skip(0) =~= children@);
            assert(base + spec_classes_in_children(children@, ns0, strat, text) =~= base
                + spec_classes_in_children(children@.skip(0), ns0, strat, text));
        }
        while i < children.len()
            invariant
                i <= children@.len(),
                self.spec_strategy() == strat,
                self.spec_text() == text,
                self.spec_ns() == ns0,
                self.spec_verbose() == verb,
                base + spec_classes_in_children(children@, ns0, strat, text)
                    == self.spec_classes() + spec_classes_in_children(
                    children@.skip(i as int),
                    ns0,
                    strat,
                    text,
                ),
            decreases children@.len() - i,
        {
            let ghost rem = children@.skip(i as int);
            let ghost cur = self.spec_classes();
            if children[i].in_main_file {
                self.traverse_recursive(&children[i]);
            }
            proof {
                assert(rem[0] == children@[i as int]);
                assert(rem.drop_first() =~= children@.skip(i + 1));
                if children@[i as int].in_main_file {
                    assert(cur + (spec_classes_in(rem[0], ns0, strat, text)
                        + spec_classes_in_children(children@.skip(i + 1), ns0, strat, text)) =~= (
                    cur + spec_classes_in(rem[0], ns0, strat, text)) + spec_classes_in_children(
                        children@.skip(i + 1),
                        ns0,
                        strat,
                        text,
                    ));
                } else {
                    assert(spec_classes_in_children(rem, ns0, strat, text)
                        =~= spec_classes_in_children(children@.skip(i + 1), ns0, strat, text));
                }
            }
            i = i + 1;
        }
        proof {
            assert(children@.skip(children@.len() as int) =~= Seq::<Entity>::empty());
            assert(self.spec_classes() + spec_classes_in_children(
                children@.skip(children@.len() as int),
                ns0,
                strat,
                text,
            ) =~= self.spec_classes());
        }
    }
}

/// Finds the classes to mock in a declaration tree: pre-order, restricted to
/// the primary file, each class joined with its enclosing namespaces and the
/// methods its strategy selects.
pub fn classes_in_tree(
    root: &Entity,
    file_contents: Option<String>,
    methods_to_mock: MethodsToMockStrategy,
    log: Logger,
) -> (r: (Vec<ClassModel>, Logger))
    ensures
        class_views(r.0@) == spec_classes_in(
            *root,
            Seq::empty(),
            methods_to_mock,
            text_view(file_contents),
        ),
        r.1.spec_verbose() == log.spec_verbose(),
{
    let traverser = AstTraverser::new(file_contents, methods_to_mock, log);
    let r = traverser.traverse(root);
    proof {
        assert(Seq::<ClassModelV>::empty() + spec_classes_in(
            *root,
            Seq::empty(),
            methods_to_mock,
            text_view(file_contents),
        ) =~= spec_classes_in(*root, Seq::empty(), methods_to_mock, text_view(file_contents)));
    }
    r
}

} // verus!
