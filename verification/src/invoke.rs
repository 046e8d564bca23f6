//! A callback that is handed around by value: either one that may be called
//! any number of times, or one that is called at most once however many
//! copies of the handle there are.

use std::rc::Rc;
use vstd::cell::invcell::InvCell;
use vstd::predicate::Predicate;
use vstd::prelude::*;

verus! {

/// What the cell of a once-only callback may hold: the callback itself,
/// until it is taken out, and nothing from then on.
pub ghost struct Once<G> {
    pub action: G,
}

impl<G> Predicate<Option<G>> for Once<G> {
    open spec fn predicate(&self, v: Option<G>) -> bool {
        v is None || v == Some(self.action)
    }
}

/// A handle on a callback. `F` is the type of a callback that may be called
/// again and again, `G` the type of one that is called once; a handle holds
/// one of the two, and its copies share it.
pub enum Invoke<F, G = F> {
    Invoke(Rc<F>),
    InvokeOnce(Rc<InvCell<Option<G>, Once<G>>>),
}

/// `Rc::clone`: a second handle on the same value.
#[verifier::external_body]
fn share<T>(rc: &Rc<T>) -> (r: Rc<T>)
    ensures
        r == *rc,
{
    rc.clone()
}

impl<F, G> Clone for Invoke<F, G> {
    fn clone(&self) -> (r: Self)
        ensures
            r == *self,
    {
        match self {
            Invoke::Invoke(action) => Invoke::Invoke(share(action)),
            Invoke::InvokeOnce(cell) => Invoke::InvokeOnce(share(cell)),
        }
    }
}

impl<F> Invoke<F, F> {
    /// A handle on a callback that may be called any number of times.
    pub fn from_fn(action: F) -> (r: Self)
        ensures
            r matches Invoke::Invoke(held) && *held == action,
    {
        Invoke::Invoke(Rc::new(action))
    }

    /// A handle on a callback that takes any value and answers with the
    /// default of its result type.
    pub fn noop<I, O: Default>() -> (r: Invoke<impl Fn(I) -> O, F>) where F: FnOnce(I) -> O
        ensures
            r is Invoke,
            forall|value: I| r.accepts::<I, O>(value),
            forall|value: I, out: O| r.yields(value, out) ==> call_ensures(O::default, (), out),
    {
        let action = |_value: I| -> (out: O)
            ensures
                call_ensures(O::default, (), out),
            {
                let out = O::default();
                out
            };
        Invoke::Invoke(Rc::new(action))
    }
}

impl<F, G> Invoke<F, G> {
    /// Whether the callback may be called with `value`.
    pub open spec fn accepts<I, O>(&self, value: I) -> bool where F: Fn(I) -> O, G: FnOnce(I) -> O {
        match self {
            Invoke::Invoke(action) => action.requires((value,)),
            Invoke::InvokeOnce(cell) => cell.predicate().action.requires((value,)),
        }
    }

    /// Whether `out` is a result that the callback may give for `value`.
    pub open spec fn yields<I, O>(&self, value: I, out: O) -> bool where
        F: Fn(I) -> O,
        G: FnOnce(I) -> O,
     {
        match self {
            Invoke::Invoke(action) => action.ensures((value,), out),
            Invoke::InvokeOnce(cell) => cell.predicate().action.ensures((value,), out),
        }
    }

    /// A handle on a callback that is called at most once.
    pub fn once(action: G) -> (r: Self)
        ensures
            r matches Invoke::InvokeOnce(cell) && cell.predicate().action == action,
    {
        Invoke::InvokeOnce(Rc::new(InvCell::new(Some(action), Ghost(Once { action }))))
    }

    /// Calls the callback with `value` and hands its result on. A callback
    /// that may be called again always answers; a once-only callback
    /// answers the first call through any of its handles, and every later
    /// call gives `None`.
    pub fn emit<I, O>(&self, value: I) -> (r: Option<O>) where F: Fn(I) -> O, G: FnOnce(I) -> O
        requires
            self.accepts(value),
        ensures
            self is Invoke ==> r is Some,
            r matches Some(out) ==> self.yields(value, out),
    {
        match self {
            Invoke::Invoke(action) => Some(action(value)),
            Invoke::InvokeOnce(cell) => match cell.replace(None) {
                Some(action) => Some(action(value)),
                None => None,
            },
        }
    }
}

} // verus!
