//! WebAssembly Component Model support: interfaces and their instances.
use vstd::prelude::*;
use crate::text::concat;
use vstd::string::StringExecFns;

verus! {

/// A function signature in a component interface, by name.
#[derive(Debug, Clone)]
pub struct Signature {
    pub name: String,
}

/// A component interface definition.
#[derive(Debug, Clone)]
pub struct ComponentInterface {
    pub name: String,
    pub version: String,
}

impl ComponentInterface {
    /// An interface at version `1.0.0`.
    pub fn new(name: String) -> (r: ComponentInterface)
        ensures
            r.name == name,
            r.version@ == "1.0.0"@,
    {
        proof {
            reveal_strlit("1.0.0");
        }
        ComponentInterface { name, version: String::from_str("1.0.0") }
    }
}

/// An instance of a component interface.
#[derive(Debug)]
pub struct ComponentInstance {
    interface: ComponentInterface,
}

impl ComponentInstance {
    /// The interface the instance implements.
    pub closed spec fn spec_interface(&self) -> ComponentInterface {
        self.interface
    }

    /// Instantiates an interface; instantiation always succeeds.
    pub fn new(interface: ComponentInterface) -> (r: Result<ComponentInstance, ComponentError>)
        ensures
            r matches Ok(i) && i.spec_interface() == interface,
    {
        Ok(ComponentInstance { interface })
    }

    /// The interface the instance implements.
    pub fn interface(&self) -> (r: &ComponentInterface)
        ensures
            *r == self.spec_interface(),
    {
        &self.interface
    }
}

/// Component-related errors.
#[derive(Debug, Clone, PartialEq, Eq)]
pub enum ComponentError {
    InvalidComponent,
    ComponentNotFound(String),
    ValidationFailed(String),
}

/// The message of a component error.
pub open spec fn component_error_text(e: ComponentError) -> Seq<char> {
    match e {
        ComponentError::InvalidComponent => "Invalid component"@,
        ComponentError::ComponentNotFound(name) => "Component not found: "@ + name@,
        ComponentError::ValidationFailed(msg) => "Validation failed: "@ + msg@,
    }
}

impl ComponentError {
    /// The error's message.
    pub fn to_message(&self) -> (r: String)
        ensures
            r@ == component_error_text(*self),
    {
        match self {
            ComponentError::InvalidComponent => {
                proof {
                    reveal_strlit("Invalid component");
                }
                String::from_str("Invalid component")
            },
            ComponentError::ComponentNotFound(name) => concat(
                "Component not found: ",
                name.as_str(),
            ),
            ComponentError::ValidationFailed(msg) => concat("Validation failed: ", msg.as_str()),
        }
    }
}

/// Initializes Component Model support. Support is optional: without it
/// the library carries on, so initialization always succeeds.
pub fn initialize_component_support() -> (r: Result<(), ComponentError>)
    ensures
        r is Ok,
{
    Ok(())
}

} // verus!
