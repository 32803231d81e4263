//! Protocol dispatch: route a decoded request to the capability that
//! reacts to it.
//!
//! A handler implements one visit operation per message kind and may
//! no-op the ones it does not care about; decoding stays independent
//! of what the mining logic does with each message.

use vstd::prelude::*;

use crate::framing::{Method, Request};
use crate::json::JsonValue;
use crate::messages::{
    authorize_of_params, notify_of_params, subscribe_of_params, Authorize, ConversionError, Notify,
    Subscribe,
};

verus! {

/// The capability that reacts to incoming mining messages; owned by
/// an external collaborator such as the job solver.
pub trait V1Handler {
    /// React to a subscription request.
    fn visit_subscribe(&mut self, id: Option<u32>, payload: &Subscribe);

    /// React to an authorization request.
    fn visit_authorize(&mut self, id: Option<u32>, payload: &Authorize);

    /// React to a difficulty update.  The raw positional params are
    /// handed over: the difficulty value is a float, which lies
    /// outside this library's value model.
    fn visit_set_difficulty(&mut self, id: Option<u32>, params: &JsonValue);

    /// React to a new-job notification.
    fn visit_notify(&mut self, id: Option<u32>, payload: &Notify);
}

impl Subscribe {
    /// Deliver this message to the handler operation named for it.
    pub fn accept<H: V1Handler>(&self, id: Option<u32>, handler: &mut H) {
        handler.visit_subscribe(id, self);
    }
}

impl Authorize {
    /// Deliver this message to the handler operation named for it.
    pub fn accept<H: V1Handler>(&self, id: Option<u32>, handler: &mut H) {
        handler.visit_authorize(id, self);
    }
}

impl Notify {
    /// Deliver this message to the handler operation named for it.
    pub fn accept<H: V1Handler>(&self, id: Option<u32>, handler: &mut H) {
        handler.visit_notify(id, self);
    }
}

/// Convert a decoded request into its typed message and deliver it to
/// the handler; fails exactly when the params do not fit the method's
/// message shape.
pub fn handle_request<H: V1Handler>(req: Request, handler: &mut H) -> (r: Result<
    (),
    ConversionError,
>)
    ensures
        match r {
            Ok(_) => match req@.method {
                Method::Subscribe => subscribe_of_params(req@.params) is Some,
                Method::Authorize => authorize_of_params(req@.params) is Some,
                Method::SetDifficulty => true,
                Method::Notify => notify_of_params(req@.params) is Some,
            },
            Err(e) => e is Json && match req@.method {
                Method::Subscribe => subscribe_of_params(req@.params) is None,
                Method::Authorize => authorize_of_params(req@.params) is None,
                Method::SetDifficulty => false,
                Method::Notify => notify_of_params(req@.params) is None,
            },
        },
{
    let id = req.id;
    match req.payload.method {
        Method::Subscribe => match Subscribe::from_request(req) {
            Ok(t) => {
                t.accept(id, handler);
                Ok(())
            },
            Err(e) => Err(e),
        },
        Method::Authorize => match Authorize::from_request(req) {
            Ok(t) => {
                t.accept(id, handler);
                Ok(())
            },
            Err(e) => Err(e),
        },
        Method::SetDifficulty => {
            handler.visit_set_difficulty(id, &req.payload.params);
            Ok(())
        },
        Method::Notify => match Notify::from_request(req) {
            Ok(t) => {
                t.accept(id, handler);
                Ok(())
            },
            Err(e) => Err(e),
        },
    }
}

} // verus!
