//! Read-only lookups over an already-decoded class file: find one
//! method by exact name, or list summaries of them all.
//!
//! Overloaded methods may legally share a name; the single-method
//! lookup returns the first match in declaration order, and the list
//! query exposes every entry for callers that need all overloads.
//! Summaries carry name, descriptor and access flags, with attribute
//! bodies left out by design to keep listing cheap.

use crate::method::{Method, MethodView};
use crate::JavaClassFile;
use vstd::prelude::*;

verus! {

/// A query's outcome: one method summary, or all of them.
#[derive(Debug)]
pub enum QueryResult {
    QMethod(Method),
    QMethodList(Vec<Method>),
}

/// The mathematical shape of a query outcome.
pub enum QueryResultView {
    QMethod(MethodView),
    QMethodList(Seq<MethodView>),
}

impl View for QueryResult {
    type V = QueryResultView;

    open spec fn view(&self) -> QueryResultView {
        match self {
            QueryResult::QMethod(m) => QueryResultView::QMethod(m@),
            QueryResult::QMethodList(list) => QueryResultView::QMethodList(list.deep_view()),
        }
    }
}

/// What is asked: one method by exact name, or the whole list.
#[derive(Debug)]
pub enum QueryType {
    QMethod(String),
    QMethodList,
}

/// A method's summary: the method without its attribute bodies.
pub open spec fn spec_summary(m: MethodView) -> MethodView {
    MethodView {
        access_flags: m.access_flags,
        name: m.name,
        descriptor: m.descriptor,
        attrs: Seq::empty(),
    }
}

/// The first method at or after `i` whose name matches, in declaration
/// order.
pub open spec fn spec_find_method_from(methods: Seq<MethodView>, name: Seq<char>, i: int) -> Option<
    MethodView,
>
    decreases methods.len() - i,
{
    if i < 0 || i >= methods.len() {
        Option::None
    } else if methods[i].name == name {
        Option::Some(methods[i])
    } else {
        spec_find_method_from(methods, name, i + 1)
    }
}

/// The first method whose name matches, in declaration order.
pub open spec fn spec_find_method(methods: Seq<MethodView>, name: Seq<char>) -> Option<MethodView> {
    spec_find_method_from(methods, name, 0)
}

/// The summaries of all methods, in declaration order.
pub open spec fn spec_method_summaries(methods: Seq<MethodView>) -> Seq<MethodView> {
    methods.map_values(|m: MethodView| spec_summary(m))
}

/// Read-only view over one decoded class file.
pub struct Query<'a> {
    pub class_file: &'a JavaClassFile,
}

/// Copies a string vector element by element.
fn clone_strings(v: &Vec<String>) -> (r: Vec<String>)
    ensures
        r@ == v@,
{
    let mut r: Vec<String> = Vec::new();
    let mut i: usize = 0;
    while i < v.len()
        invariant
            i <= v.len(),
            r@ =~= v@.subrange(0, i as int),
        decreases v.len() - i,
    {
        r.push(v[i].clone());
        i = i + 1;
    }
    proof {
        assert(r@ =~= v@);
    }
    r
}

/// The summary of one method: name, descriptor and access flags, with
/// the attribute list left empty.
fn summarize(m: &Method) -> (r: Method)
    ensures
        r@ == spec_summary(m@),
{
    let r = Method {
        access_flags: clone_strings(&m.access_flags),
        name: m.name.clone(),
        descriptor: m.descriptor.clone(),
        attrs: Vec::new(),
    };
    proof {
        crate::attributes::lemma_attrs_seq_view(r.attrs@);
        assert(crate::attributes::attrs_seq_view(r.attrs@) =~= Seq::empty());
    }
    r
}

impl<'a> Query<'a> {
    /// A query engine over the given class file.
    pub fn new(class_file: &'a JavaClassFile) -> (s: Self)
        ensures
            s.class_file == class_file,
    {
        Query { class_file }
    }

    /// Answers one query. A name lookup returns the summary of the
    /// first method with exactly that name, or nothing when no method
    /// has it; the list query always returns every method's summary in
    /// declaration order.
    #[verifier::loop_isolation(false)]
    pub fn query(&self, q: QueryType) -> (r: Option<QueryResult>)
        ensures
            match q {
                QueryType::QMethod(name) => match spec_find_method(
                    self.class_file.methods.deep_view(),
                    name@,
                ) {
                    Option::Some(m) => r matches Some(qr) && qr@ == QueryResultView::QMethod(
                        spec_summary(m),
                    ),
                    Option::None => r is None,
                },
                QueryType::QMethodList => r matches Some(qr) && qr@ == QueryResultView::QMethodList(
                    spec_method_summaries(self.class_file.methods.deep_view()),
                ),
            },
    {
        let ghost methods_v = self.class_file.methods.deep_view();
        match q {
            QueryType::QMethod(name) => {
                let n = self.class_file.methods.len();
                let mut i: usize = 0;
                while i < n
                    invariant
                        methods_v == self.class_file.methods.deep_view(),
                        n == methods_v.len(),
                        i <= n,
                        spec_find_method(methods_v, name@) == spec_find_method_from(
                            methods_v,
                            name@,
                            i as int,
                        ),
                    decreases n - i,
                {
                    if self.class_file.methods[i].name == name {
                        return Some(QueryResult::QMethod(summarize(&self.class_file.methods[i])));
                    }
                    i = i + 1;
                }
                None
            },
            QueryType::QMethodList => {
                let n = self.class_file.methods.len();
                let mut list: Vec<Method> = Vec::new();
                let mut i: usize = 0;
                while i < n
                    invariant
                        methods_v == self.class_file.methods.deep_view(),
                        n == methods_v.len(),
                        i <= n,
                        list.deep_view() =~= spec_method_summaries(methods_v).take(i as int),
                    decreases n - i,
                {
                    list.push(summarize(&self.class_file.methods[i]));
                    proof {
                        assert(spec_method_summaries(methods_v).take(i + 1)
                            =~= spec_method_summaries(methods_v).take(i as int).push(
                            spec_summary(methods_v[i as int]),
                        ));
                    }
                    i = i + 1;
                }
                proof {
                    assert(spec_method_summaries(methods_v).take(n as int) =~= spec_method_summaries(
                        methods_v,
                    ));
                }
                Some(QueryResult::QMethodList(list))
            },
        }
    }
}

} // verus!
