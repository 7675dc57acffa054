//! What the compiler hands over: a module and the contracts in it.

use vstd::prelude::*;

verus! {

/// The text of an optional string.
pub open spec fn optional_text(text: Option<String>) -> Option<Seq<char>> {
    match text {
        Some(text) => Some(text@),
        None => None,
    }
}

/// What was compiled for one contract, each part as the compiler gave it.
#[derive(Clone, Debug, PartialEq, Eq)]
pub struct CompiledContract {
    /// The interface description, as JSON text.
    pub json_abi: String,
    /// The intermediate representation, as the compiler printed it.  It is
    /// laid out by its braces when it is written.
    pub yul: String,
    /// The binary payload.  It is absent where the backend that produces it
    /// was not available or was not asked for.
    pub bytecode: Option<String>,
}

/// What a [`CompiledContract`] holds, as plain text.
pub struct ContractText {
    pub json_abi: Seq<char>,
    pub yul: Seq<char>,
    pub bytecode: Option<Seq<char>>,
}

impl View for CompiledContract {
    type V = ContractText;

    open spec fn view(&self) -> ContractText {
        ContractText {
            json_abi: self.json_abi@,
            yul: self.yul@,
            bytecode: optional_text(self.bytecode),
        }
    }
}

/// What a [`CompiledModule`] holds, as plain text.  The contracts stand in
/// the order in which they were added, each with its name.
pub struct ModuleText {
    pub fe_ast: Seq<char>,
    pub fe_tokens: Seq<char>,
    pub contracts: Seq<(Seq<char>, ContractText)>,
}

/// No two of the contracts share a name.
pub open spec fn distinct_names(contracts: Seq<(Seq<char>, ContractText)>) -> bool {
    forall|i: int, j: int|
        0 <= i < j < contracts.len() ==> (#[trigger] contracts[i]).0 != (#[trigger] contracts[j]).0
}

/// One of the contracts goes by `name`.
pub open spec fn has_name(contracts: Seq<(Seq<char>, ContractText)>, name: Seq<char>) -> bool {
    exists|i: int| 0 <= i < contracts.len() && (#[trigger] contracts[i]).0 == name
}

/// A compiled module: its syntax tree, its token stream, and its contracts
/// by name.  No two contracts of a module share a name; a module cannot be
/// built otherwise.
///
/// A contract's name becomes the name of a directory and part of file names.
/// Whether it is fit for that is not examined here: the compiler that names
/// the contracts answers for it.
#[derive(Debug, PartialEq, Eq)]
pub struct CompiledModule {
    fe_ast: String,
    fe_tokens: String,
    contracts: Vec<(String, CompiledContract)>,
}

impl View for CompiledModule {
    type V = ModuleText;

    closed spec fn view(&self) -> ModuleText {
        ModuleText {
            fe_ast: self.fe_ast@,
            fe_tokens: self.fe_tokens@,
            contracts: self.contracts@.map_values(|entry: (String, CompiledContract)| (entry.0@, entry.1@)),
        }
    }
}

impl CompiledModule {
    /// No two contracts of the module share a name.  This holds of every
    /// module that was built through [`CompiledModule::new`] and
    /// [`CompiledModule::add_contract`], and there is no other way to build one.
    pub open spec fn wf(&self) -> bool {
        distinct_names(self@.contracts)
    }

    /// A module without contracts.
    pub fn new(fe_ast: String, fe_tokens: String) -> (module: CompiledModule)
        ensures
            module.wf(),
            module@ == (ModuleText { fe_ast: fe_ast@, fe_tokens: fe_tokens@, contracts: Seq::empty() }),
    {
        let module = CompiledModule { fe_ast, fe_tokens, contracts: Vec::new() };
        assert(module@.contracts =~= Seq::empty());
        module
    }

    /// The number of contracts.
    pub fn contract_count(&self) -> (count: usize)
        ensures
            count == self@.contracts.len(),
    {
        self.contracts.len()
    }

    /// The syntax tree of the module.
    pub fn fe_ast(&self) -> (text: &String)
        ensures
            text@ == self@.fe_ast,
    {
        &self.fe_ast
    }

    /// The token stream of the module.
    pub fn fe_tokens(&self) -> (text: &String)
        ensures
            text@ == self@.fe_tokens,
    {
        &self.fe_tokens
    }

    /// The contract at `index`, with its name; `None` where the module has
    /// no more than `index` contracts.
    pub fn contract_at(&self, index: usize) -> (entry: Option<(&String, &CompiledContract)>)
        ensures
            match entry {
                Some((name, contract)) => {
                    &&& index < self@.contracts.len()
                    &&& name@ == self@.contracts[index as int].0
                    &&& contract@ == self@.contracts[index as int].1
                },
                None => index >= self@.contracts.len(),
            },
    {
        if index < self.contracts.len() {
            Some((&self.contracts[index].0, &self.contracts[index].1))
        } else {
            None
        }
    }

    /// Whether one of the contracts goes by `name`.
    pub fn has_contract(&self, name: &str) -> (found: bool)
        ensures
            found == has_name(self@.contracts, name@),
    {
        let wanted = name.to_owned();
        let mut index: usize = 0;
        while index < self.contracts.len()
            invariant
                index <= self.contracts.len(),
                wanted@ == name@,
                forall|i: int| 0 <= i < index ==> (#[trigger] self@.contracts[i]).0 != name@,
            decreases self.contracts.len() - index,
        {
            if self.contracts[index].0 == wanted {
                assert(self@.contracts[index as int].0 == name@);
                return true;
            }
            index += 1;
        }
        false
    }

    /// Adds a contract under `name`, unless the module has one of that name
    /// already: then the module stays as it is and the answer is `false`.
    pub fn add_contract(&mut self, name: String, contract: CompiledContract) -> (added: bool)
        ensures
            old(self).wf() ==> final(self).wf(),
            added == !has_name(old(self)@.contracts, name@),
            added ==> final(self)@ == (ModuleText {
                contracts: old(self)@.contracts.push((name@, contract@)),
                ..old(self)@
            }),
            !added ==> final(self)@ == old(self)@,
    {
        if self.has_contract(name.as_str()) {
            return false;
        }
        let ghost before = self@;
        self.contracts.push((name, contract));
        assert(self@.contracts =~= before.contracts.push((name@, contract@)));
        true
    }
}

} // verus!
