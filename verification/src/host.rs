//! Descriptions of functions: what the host says of the functions it
//! provides, and what the tracer records of every function of a module.

use crate::module::FuncKind;
use crate::types::{Signature, SignatureView};
use std::collections::HashMap;
use vstd::prelude::*;

verus! {

/// Whether an external host call takes an argument or returns a value.
#[derive(Clone, Copy, Debug, PartialEq, Eq, Structural)]
pub enum ExternalHostCallSignature {
    Argument,
    Return,
}

/// What the embedder says of one host function slot.
#[derive(Debug, PartialEq, Eq)]
pub enum HostFunctionDesc {
    /// An operation of a built-in plugin.
    Internal { name: String, op_index_in_plugin: usize, plugin: usize },
    /// A named operation outside the plugins.
    External { name: String, op: usize, sig: ExternalHostCallSignature },
}

/// The kind of a traced function.
#[derive(Debug, PartialEq, Eq)]
pub enum FunctionType {
    WasmFunction,
    HostFunction {
        plugin: usize,
        function_index: usize,
        function_name: String,
        op_index_in_plugin: usize,
    },
    HostFunctionExternal { function_name: String, op: usize, sig: ExternalHostCallSignature },
}

/// What the tracer records of one function of a module.
#[derive(Debug, PartialEq, Eq)]
pub struct FuncDesc {
    /// The function's stable index in the trace tables.
    pub index_within_jtable: u32,
    pub ftype: FunctionType,
    pub signature: Signature,
}

/// The mathematical content of a [`FuncDesc`].
pub ghost struct FuncDescView {
    pub index_within_jtable: u32,
    pub ftype: FunctionType,
    pub signature: SignatureView,
}

impl View for FuncDesc {
    type V = FuncDescView;

    open spec fn view(&self) -> FuncDescView {
        FuncDescView {
            index_within_jtable: self.index_within_jtable,
            ftype: self.ftype,
            signature: self.signature@,
        }
    }
}

/// Why a module instance cannot be registered as configured.
#[derive(Clone, Copy, Debug, PartialEq, Eq, Structural)]
pub enum ConfigError {
    /// A function is backed by a host slot that has no description.
    MissingHostFunction { host_func_index: usize },
    /// The phantom pattern at this position is not a regular expression.
    InvalidPhantomPattern { index: usize },
    /// A function is phantom, and the module has no host input function.
    MissingHostInput,
}

impl ConfigError {
    /// Says in words which condition failed.
    pub fn description(&self) -> (r: &'static str)
        ensures
            r@ == match *self {
                ConfigError::MissingHostFunction { .. } => "a host function has no description"@,
                ConfigError::InvalidPhantomPattern { .. } =>
                    "a phantom pattern is not a regular expression"@,
                ConfigError::MissingHostInput =>
                    "a phantom function needs the host input function"@,
            },
    {
        match self {
            ConfigError::MissingHostFunction { .. } => "a host function has no description",
            ConfigError::InvalidPhantomPattern { .. } => {
                "a phantom pattern is not a regular expression"
            },
            ConfigError::MissingHostInput => "a phantom function needs the host input function",
        }
    }
}

/// The kind recorded for a host function in slot `slot` with description `desc`.
pub open spec fn host_function_type(desc: HostFunctionDesc, slot: usize) -> FunctionType {
    match desc {
        HostFunctionDesc::Internal { name, op_index_in_plugin, plugin } => {
            FunctionType::HostFunction {
                plugin,
                function_index: slot,
                function_name: name,
                op_index_in_plugin,
            }
        },
        HostFunctionDesc::External { name, op, sig } => FunctionType::HostFunctionExternal {
            function_name: name,
            op,
            sig,
        },
    }
}

/// The kind recorded for a function: a module-defined function is a
/// `WasmFunction`; a host function takes its kind from the description of its
/// slot, and has none where the slot is not described.
pub open spec fn function_type_of(kind: FuncKind, host: Map<usize, HostFunctionDesc>) -> Option<
    FunctionType,
> {
    match kind {
        FuncKind::Internal { .. } => Some(FunctionType::WasmFunction),
        FuncKind::Host { host_func_index } => if host.contains_key(host_func_index) {
            Some(host_function_type(host[host_func_index], host_func_index))
        } else {
            None
        },
    }
}

/// Classifies a function as module-defined or host-provided. A host function
/// whose slot has no description is a configuration error.
pub fn classify(kind: &FuncKind, host: &HashMap<usize, HostFunctionDesc>) -> (r: Result<
    FunctionType,
    ConfigError,
>)
    ensures
        match r {
            Ok(ftype) => function_type_of(*kind, host@) == Some(ftype),
            Err(e) => {
                &&& function_type_of(*kind, host@) is None
                &&& *kind matches FuncKind::Host { host_func_index }
                &&& e == (ConfigError::MissingHostFunction { host_func_index })
            },
        },
{
    match kind {
        FuncKind::Internal { .. } => Ok(FunctionType::WasmFunction),
        FuncKind::Host { host_func_index } => {
            let slot = *host_func_index;
            match host.get(&slot) {
                None => Err(ConfigError::MissingHostFunction { host_func_index: slot }),
                Some(HostFunctionDesc::Internal { name, op_index_in_plugin, plugin }) => Ok(
                    FunctionType::HostFunction {
                        plugin: *plugin,
                        function_index: slot,
                        function_name: name.clone(),
                        op_index_in_plugin: *op_index_in_plugin,
                    },
                ),
                Some(HostFunctionDesc::External { name, op, sig }) => Ok(
                    FunctionType::HostFunctionExternal {
                        function_name: name.clone(),
                        op: *op,
                        sig: *sig,
                    },
                ),
            }
        },
    }
}

} // verus!
