//! Macro coordination between cells: what a cell answers about the macros
//! it provides, and what a client makes of the answers.

use vstd::prelude::*;

verus! {

/// A macro a cell provides.
#[derive(Debug, Clone)]
pub struct MacroInfo {
    pub name: String,
    pub description: String,
}

impl MacroInfo {
    pub fn duplicate(&self) -> (m: MacroInfo)
        ensures
            m == *self,
    {
        MacroInfo { name: self.name.clone(), description: self.description.clone() }
    }
}

/// A request about macros; `C` is the context handed to an expansion.
#[derive(Debug, Clone)]
pub enum MacroCoordinationRequest<C> {
    WhatMacrosDoYouProvide,
    GetMacroInfo { name: String },
    CoordinateExpansion { macro_name: String, context: C },
    QueryOtherCell { target_cell: String, query: String },
}

/// An answer about macros.
#[derive(Debug, Clone)]
pub enum MacroCoordinationResponse {
    Macros { macros: Vec<MacroInfo> },
    MacroInfo { info: MacroInfo },
    GeneratedCode { code: String },
    Error { message: String },
}

/// What a serving cell does with a request.
#[derive(Debug, Clone)]
pub enum CoordinationStep<C> {
    /// Answer at once.
    Respond(MacroCoordinationResponse),
    /// Run the expander on the macro and context, then answer with
    /// `expansion_response`.
    Expand { macro_name: String, context: C },
    /// Ask the target cell and pass its answer on.
    AskOther { target_cell: String, query: String },
}

/// The first macro named `name`, if any.
pub open spec fn first_named(macros: Seq<MacroInfo>, name: Seq<char>) -> Option<MacroInfo>
    decreases macros.len(),
{
    if macros.len() == 0 {
        None
    } else if macros[0].name@ == name {
        Some(macros[0])
    } else {
        first_named(macros.drop_first(), name)
    }
}

/// The macros of a serving cell.
pub struct CoordinationHandler {
    cell_name: String,
    macros: Vec<MacroInfo>,
}

impl CoordinationHandler {
    pub closed spec fn macros_spec(&self) -> Seq<MacroInfo> {
        self.macros@
    }

    pub closed spec fn cell_name_spec(&self) -> Seq<char> {
        self.cell_name@
    }

    pub fn new(cell_name: &str, macros: Vec<MacroInfo>) -> (h: Self)
        ensures
            h.macros_spec() == macros@,
            h.cell_name_spec() == cell_name@,
    {
        CoordinationHandler { cell_name: String::from_str(cell_name), macros }
    }

    fn copy_macros(&self) -> (r: Vec<MacroInfo>)
        ensures
            r@ == self.macros@,
    {
        let mut out: Vec<MacroInfo> = Vec::new();
        let mut i: usize = 0;
        while i < self.macros.len()
            invariant
                i <= self.macros@.len(),
                out@ == self.macros@.take(i as int),
            decreases self.macros@.len() - i,
        {
            out.push(self.macros[i].duplicate());
            i = i + 1;
            proof {
                assert(out@ =~= self.macros@.take(i as int));
            }
        }
        proof {
            assert(self.macros@.take(self.macros@.len() as int) =~= self.macros@);
        }
        out
    }

    fn find_macro(&self, name: &String) -> (r: Option<MacroInfo>)
        ensures
            r == first_named(self.macros@, name@),
    {
        let mut i: usize = 0;
        proof {
            assert(self.macros@.skip(0) =~= self.macros@);
        }
        while i < self.macros.len()
            invariant
                i <= self.macros@.len(),
                first_named(self.macros@, name@) == first_named(self.macros@.skip(i as int), name@),
            decreases self.macros@.len() - i,
        {
            proof {
                assert(self.macros@.skip(i as int)[0] == self.macros@[i as int]);
                assert(self.macros@.skip(i as int).drop_first() =~= self.macros@.skip(i + 1));
            }
            if self.macros[i].name == *name {
                return Some(self.macros[i].duplicate());
            }
            i = i + 1;
        }
        None
    }

    /// What the cell does with `req`: list its macros, describe one (or
    /// answer that it is not found), run an expansion, or ask another cell.
    pub fn handle<C>(&self, req: MacroCoordinationRequest<C>) -> (s: CoordinationStep<C>)
        ensures
            match req {
                MacroCoordinationRequest::WhatMacrosDoYouProvide => s matches CoordinationStep::Respond(
                    MacroCoordinationResponse::Macros { macros },
                ) && macros@ == self.macros_spec(),
                MacroCoordinationRequest::GetMacroInfo { name } => match first_named(
                    self.macros_spec(),
                    name@,
                ) {
                    Some(m) => s matches CoordinationStep::Respond(
                        MacroCoordinationResponse::MacroInfo { info },
                    ) && info == m,
                    None => s matches CoordinationStep::Respond(
                        MacroCoordinationResponse::Error { message },
                    ) && message@ == "Macro '"@ + name@ + "' not found"@,
                },
                MacroCoordinationRequest::CoordinateExpansion { macro_name, context } => s
                    == CoordinationStep::Expand { macro_name, context },
                MacroCoordinationRequest::QueryOtherCell { target_cell, query } => s
                    == CoordinationStep::<C>::AskOther { target_cell, query },
            },
    {
        match req {
            MacroCoordinationRequest::WhatMacrosDoYouProvide => {
                CoordinationStep::Respond(MacroCoordinationResponse::Macros { macros: self.copy_macros() })
            },
            MacroCoordinationRequest::GetMacroInfo { name } => match self.find_macro(&name) {
                Some(info) => CoordinationStep::Respond(MacroCoordinationResponse::MacroInfo { info }),
                None => {
                    let mut m = String::from_str("Macro '");
                    m.append(name.as_str());
                    m.append("' not found");
                    CoordinationStep::Respond(MacroCoordinationResponse::Error { message: m })
                },
            },
            MacroCoordinationRequest::CoordinateExpansion { macro_name, context } => {
                CoordinationStep::Expand { macro_name, context }
            },
            MacroCoordinationRequest::QueryOtherCell { target_cell, query } => {
                CoordinationStep::AskOther { target_cell, query }
            },
        }
    }
}

/// The answer to an expansion: the generated code, or the expander's error.
pub fn expansion_response(result: Result<String, String>) -> (r: MacroCoordinationResponse)
    ensures
        match result {
            Ok(code) => r == MacroCoordinationResponse::GeneratedCode { code },
            Err(message) => r == MacroCoordinationResponse::Error { message },
        },
{
    match result {
        Ok(code) => MacroCoordinationResponse::GeneratedCode { code },
        Err(message) => MacroCoordinationResponse::Error { message },
    }
}

/// The answer a client makes up when it could not reach the cell: the
/// connection failed with `detail`, or timed out.
pub fn unreachable_response(cell_name: &str, timed_out: bool, detail: &str) -> (r: MacroCoordinationResponse)
    ensures
        r matches MacroCoordinationResponse::Error { message } && message@ == (if timed_out {
            "Cell '"@ + cell_name@ + "' connection timeout"@
        } else {
            "Cell '"@ + cell_name@ + "' not running: "@ + detail@
        }),
{
    let mut m = String::from_str("Cell '");
    m.append(cell_name);
    if timed_out {
        m.append("' connection timeout");
    } else {
        m.append("' not running: ");
        m.append(detail);
    }
    MacroCoordinationResponse::Error { message: m }
}

/// What a client makes of the answer to "which macros do you provide":
/// the list, or (after an error) a fall back to the cached list.
#[derive(Debug, Clone)]
pub enum MacroListOutcome {
    Listed(Vec<MacroInfo>),
    UseCache(String),
    Unexpected,
}

pub fn macro_list_outcome(resp: MacroCoordinationResponse) -> (r: MacroListOutcome)
    ensures
        match resp {
            MacroCoordinationResponse::Macros { macros } => r matches MacroListOutcome::Listed(m) && m
                == macros,
            MacroCoordinationResponse::Error { message } => r matches MacroListOutcome::UseCache(
                m,
            ) && m == message,
            _ => r is Unexpected,
        },
{
    match resp {
        MacroCoordinationResponse::Macros { macros } => MacroListOutcome::Listed(macros),
        MacroCoordinationResponse::Error { message } => MacroListOutcome::UseCache(message),
        _ => MacroListOutcome::Unexpected,
    }
}

/// What a client makes of the answer to an expansion request.
pub fn expansion_outcome(resp: MacroCoordinationResponse) -> (r: Result<String, String>)
    ensures
        match resp {
            MacroCoordinationResponse::GeneratedCode { code } => r == Ok::<String, String>(code),
            MacroCoordinationResponse::Error { message } => r matches Err(e) && e@
                == "Coordination failed: "@ + message@,
            _ => r matches Err(e) && e@ == "Unexpected response"@,
        },
{
    match resp {
        MacroCoordinationResponse::GeneratedCode { code } => Ok(code),
        MacroCoordinationResponse::Error { message } => {
            let mut e = String::from_str("Coordination failed: ");
            e.append(message.as_str());
            Err(e)
        },
        _ => Err(String::from_str("Unexpected response")),
    }
}

} // verus!
