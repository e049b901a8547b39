//! Sanitising rewrite of HTML and CSS e-mail bodies.
//!
//! Every externally resolvable reference is replaced by an inert placeholder
//! and recorded in a registry of deferrals whose indices run from zero
//! without gaps across one document.

pub mod css;
pub mod deferral;
pub mod allow;
pub mod html;
pub mod marker;
pub mod text;
