//! The id of an application context.

use vstd::prelude::*;

use crate::logging::rolling::{decimal, decimal_spec};
use crate::text::{chars_of, concat, opt_view, string_of, trim, trim_spec};

verus! {

broadcast use vstd::string::group_string_axioms;

/// The property that names the application, from which the id of a context
/// without a parent is made.
pub const APPLICATION_NAME_PROPERTY: &'static str = "spring.application.name";

/// The id of an application that has no name.
pub const DEFAULT_APPLICATION_ID: &'static str = "application";

/// The order of the initializer, which runs late.
pub const DEFAULT_ORDER: i32 = 2147483637i32;

/// The id of an application: its name, unless it is blank.
pub open spec fn application_id_spec(name: Option<Seq<char>>) -> Seq<char> {
    match name {
        Some(n) => if trim_spec(n).len() > 0 {
            n
        } else {
            DEFAULT_APPLICATION_ID@
        },
        None => DEFAULT_APPLICATION_ID@,
    }
}

/// Returns the id of an application of the given name: the name, unless it
/// is missing or blank, in which case `application` is used.
pub fn application_id(name: Option<String>) -> (r: String)
    ensures
        r@ == application_id_spec(opt_view(name)),
{
    match name {
        Some(n) => if trim(&chars_of(n.as_str())).len() > 0 {
            n
        } else {
            DEFAULT_APPLICATION_ID.to_owned()
        },
        None => DEFAULT_APPLICATION_ID.to_owned(),
    }
}

/// The id of a child of the context of the given id, numbered `count`.
pub open spec fn child_id_spec(id: Seq<char>, count: u64) -> Seq<char> {
    id + "-"@ + decimal_spec(count as nat)
}

/// Returns the id of a child of the context of the given id, numbered
/// `count`: `app-1` for the first child of `app`.
pub fn child_id(id: &str, count: u64) -> (r: String)
    ensures
        r@ == child_id_spec(id@, count),
{
    let with_dash = concat(&chars_of(id), &chars_of("-"));
    string_of(&concat(&with_dash, &decimal(count)))
}

/// The id of a context, and the number of child ids created from it, which
/// the clones of the id share.
#[derive(Debug, Clone)]
pub struct ContextId {
    children: std::sync::Arc<std::sync::atomic::AtomicU64>,
    id: String,
}

impl ContextId {
    /// The id.
    pub closed spec fn id_spec(&self) -> Seq<char> {
        self.id@
    }

    /// Creates a new root context id, which has no child yet.
    pub fn new(id: String) -> (r: Self)
        ensures
            r.id_spec() == id@,
    {
        ContextId { children: std::sync::Arc::new(std::sync::atomic::AtomicU64::new(0)), id }
    }

    /// Creates a child context id by appending an incrementing suffix: the
    /// first child of `app` is `app-1`, the second `app-2`, counted over this
    /// id and all its clones. The count stops at the largest `u64`.
    ///
    /// The number a call takes depends on the calls made before on any clone
    /// of the id, in any thread, so only that it is a positive number is
    /// stated.
    pub fn create_child_id(&self) -> (r: ContextId)
        ensures
            exists|count: u64| count >= 1 && #[trigger] child_id_spec(self.id_spec(), count) == r.id_spec(),
    {
        let previous = self.children.fetch_add(1, std::sync::atomic::Ordering::SeqCst);
        let count = previous.saturating_add(1);
        let id = child_id(self.id.as_str(), count);
        assert(child_id_spec(self.id_spec(), count) == id@);
        ContextId::new(id)
    }

    /// Returns the id.
    pub fn get_id(&self) -> (r: &str)
        ensures
            r@ == self.id_spec(),
    {
        self.id.as_str()
    }
}

/// Returns the id of a context: a child id of the id of its parent when the
/// parent has one, else the id of the application of the given name.
pub fn context_id_for(parent: &Option<ContextId>, name: Option<String>) -> (r: ContextId)
    ensures
        match *parent {
            Some(p) => exists|count: u64| count >= 1 && #[trigger] child_id_spec(p.id_spec(), count) == r.id_spec(),
            None => r.id_spec() == application_id_spec(opt_view(name)),
        },
{
    match parent {
        Some(p) => p.create_child_id(),
        None => ContextId::new(application_id(name)),
    }
}

/// Sets the id of the application context.
#[derive(Debug)]
pub struct ContextIdApplicationContextInitializer {
    order: i32,
}

impl ContextIdApplicationContextInitializer {
    /// The order of the initializer.
    pub closed spec fn order_spec(&self) -> i32 {
        self.order
    }

    /// Creates a new initializer with the default order (`i32::MAX - 10`).
    pub fn new() -> (r: Self)
        ensures
            r.order_spec() == DEFAULT_ORDER,
    {
        ContextIdApplicationContextInitializer { order: DEFAULT_ORDER }
    }

    /// Overrides the ordering value.
    pub fn set_order(&mut self, order: i32)
        ensures
            final(self).order_spec() == order,
    {
        self.order = order;
    }

    /// Returns the ordering value.
    pub fn order(&self) -> (r: i32)
        ensures
            r == self.order_spec(),
    {
        self.order
    }
}

impl Default for ContextIdApplicationContextInitializer {
    /// An initializer with the default order.
    fn default() -> (r: Self)
        ensures
            r.order_spec() == DEFAULT_ORDER,
    {
        ContextIdApplicationContextInitializer::new()
    }
}

} // verus!
