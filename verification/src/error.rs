//! What can go wrong while a session is negotiated and bound.

use vstd::prelude::*;

verus! {

/// The failures of session negotiation and of render-context binding. `E` is
/// the platform's own error value, carried as it came.
#[derive(Clone, Debug, PartialEq, Eq)]
pub enum WebXrError<E> {
    /// The platform rejected a request.
    JsError(E),
    /// The platform answered a support probe with something that is no
    /// boolean.
    NotABool,
    NotSupported,
    CanvasNotFound,
    WebGl2ContextNotFound,
    /// There is no session, or the session request failed before.
    SessionError,
    NoWindow,
    NoDocument,
    /// The element found or created for a button is no button; carries the
    /// element.
    ElementNotButtonElement(E),
    /// The element found or created for the canvas is no canvas; carries the
    /// element.
    ElementNotCanvasElement(E),
    NoBody,
    /// The platform rejected the session request.
    SessionRequestError(E),
}

impl<E> WebXrError<E> {
    /// The text that [`WebXrError::message`] gives.
    pub open spec fn text(&self) -> Seq<char> {
        match self {
            WebXrError::JsError(_) => "Some js error."@,
            WebXrError::NotABool => "Failed to get bool from JsValue!"@,
            WebXrError::NotSupported => "WebXr currently not supported!"@,
            WebXrError::CanvasNotFound => "Canvas couldn't be found!"@,
            WebXrError::WebGl2ContextNotFound => "WebGL2 context not found!"@,
            WebXrError::SessionError => "Session lost!"@,
            WebXrError::NoWindow => "Browser window not found!"@,
            WebXrError::NoDocument => "HTML Document not found!"@,
            WebXrError::ElementNotButtonElement(_) => {
                "XR Initialize Element is not a html button element!"@
            },
            WebXrError::ElementNotCanvasElement(_) => {
                "XR Initialize Element is not a html canvas element!"@
            },
            WebXrError::NoBody => "HTML Body not found!"@,
            WebXrError::SessionRequestError(_) => "Failed to request xr session!"@,
        }
    }

    /// A description of the failure for people.
    pub fn message(&self) -> (text: String)
        ensures
            text@ == self.text(),
    {
        match self {
            WebXrError::JsError(_) => "Some js error.".to_owned(),
            WebXrError::NotABool => "Failed to get bool from JsValue!".to_owned(),
            WebXrError::NotSupported => "WebXr currently not supported!".to_owned(),
            WebXrError::CanvasNotFound => "Canvas couldn't be found!".to_owned(),
            WebXrError::WebGl2ContextNotFound => "WebGL2 context not found!".to_owned(),
            WebXrError::SessionError => "Session lost!".to_owned(),
            WebXrError::NoWindow => "Browser window not found!".to_owned(),
            WebXrError::NoDocument => "HTML Document not found!".to_owned(),
            WebXrError::ElementNotButtonElement(_) => {
                "XR Initialize Element is not a html button element!".to_owned()
            },
            WebXrError::ElementNotCanvasElement(_) => {
                "XR Initialize Element is not a html canvas element!".to_owned()
            },
            WebXrError::NoBody => "HTML Body not found!".to_owned(),
            WebXrError::SessionRequestError(_) => "Failed to request xr session!".to_owned(),
        }
    }
}

} // verus!
