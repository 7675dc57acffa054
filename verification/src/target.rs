//! Output kinds and the set of kinds that a run was asked to emit.

use crate::error::{EmitError, EmitFailure};
use vstd::prelude::*;

verus! {

/// One kind of artifact that can be emitted for a compiled module.
#[derive(Clone, Copy, Debug, PartialEq, Eq, Hash, Structural)]
pub enum CompilationTarget {
    /// The JSON interface description of a contract.
    Abi,
    /// The syntax tree of the module.
    Ast,
    /// The binary payload of a contract.
    Bytecode,
    /// The token stream of the module.
    Tokens,
    /// The intermediate representation of a contract.
    Yul,
}

/// The name under which a kind is requested.
pub open spec fn target_name(kind: CompilationTarget) -> Seq<char> {
    match kind {
        CompilationTarget::Abi => "abi"@,
        CompilationTarget::Ast => "ast"@,
        CompilationTarget::Bytecode => "bytecode"@,
        CompilationTarget::Tokens => "tokens"@,
        CompilationTarget::Yul => "yul"@,
    }
}

/// The kind that a name requests, if it requests one.
pub open spec fn target_of_name(name: Seq<char>) -> Option<CompilationTarget> {
    if name == "abi"@ {
        Some(CompilationTarget::Abi)
    } else if name == "ast"@ {
        Some(CompilationTarget::Ast)
    } else if name == "bytecode"@ {
        Some(CompilationTarget::Bytecode)
    } else if name == "tokens"@ {
        Some(CompilationTarget::Tokens)
    } else if name == "yul"@ {
        Some(CompilationTarget::Yul)
    } else {
        None
    }
}

/// Every kind is requested by its own name, and by no other kind's name.
pub proof fn lemma_name_round_trip(kind: CompilationTarget)
    ensures
        target_of_name(target_name(kind)) == Some(kind),
{
    reveal_strlit("abi");
    reveal_strlit("ast");
    reveal_strlit("bytecode");
    reveal_strlit("tokens");
    reveal_strlit("yul");
    assert("abi"@.len() == 3 && "ast"@.len() == 3 && "yul"@.len() == 3);
    assert("bytecode"@.len() == 8 && "tokens"@.len() == 6);
    assert("abi"@[1] == 'b' && "ast"@[1] == 's' && "yul"@[1] == 'u');
}

impl CompilationTarget {
    /// Reads a requested name.  Names are matched exactly, in lower case.
    pub fn from_name(name: &str) -> (kind: Option<CompilationTarget>)
        ensures
            kind == target_of_name(name@),
    {
        let owned = name.to_owned();
        if owned == "abi".to_owned() {
            Some(CompilationTarget::Abi)
        } else if owned == "ast".to_owned() {
            Some(CompilationTarget::Ast)
        } else if owned == "bytecode".to_owned() {
            Some(CompilationTarget::Bytecode)
        } else if owned == "tokens".to_owned() {
            Some(CompilationTarget::Tokens)
        } else if owned == "yul".to_owned() {
            Some(CompilationTarget::Yul)
        } else {
            None
        }
    }

    /// The name under which this kind is requested.
    pub fn name(&self) -> (name: &'static str)
        ensures
            name@ == target_name(*self),
    {
        match self {
            CompilationTarget::Abi => "abi",
            CompilationTarget::Ast => "ast",
            CompilationTarget::Bytecode => "bytecode",
            CompilationTarget::Tokens => "tokens",
            CompilationTarget::Yul => "yul",
        }
    }
}

/// The text of each of `names`, in order.
pub open spec fn texts(names: Seq<&str>) -> Seq<Seq<char>> {
    names.map_values(|name: &str| name@)
}

/// Every one of `names` stands for an output kind.
pub open spec fn all_known(names: Seq<Seq<char>>) -> bool {
    forall|i: int| 0 <= i < names.len() ==> target_of_name(#[trigger] names[i]) is Some
}

/// `names[at]` stands for no output kind, and every name before it does.
pub open spec fn first_unknown(names: Seq<Seq<char>>, at: int) -> bool {
    &&& 0 <= at < names.len()
    &&& target_of_name(names[at]) is None
    &&& forall|i: int| 0 <= i < at ==> target_of_name(#[trigger] names[i]) is Some
}

/// The kinds that `names` ask for: a kind is asked for when it is named at
/// least once.
pub open spec fn requested(names: Seq<Seq<char>>) -> Set<CompilationTarget> {
    Set::new(
        |kind: CompilationTarget|
            exists|i: int| 0 <= i < names.len() && target_of_name(#[trigger] names[i]) == Some(kind),
    )
}

/// The output kinds that a run was asked to emit.  It is made once, from what
/// the user asked for, and is only read afterwards.
#[derive(Clone, Copy, Debug, PartialEq, Eq, Hash, Structural)]
pub struct TargetSet {
    abi: bool,
    ast: bool,
    bytecode: bool,
    tokens: bool,
    yul: bool,
}

impl View for TargetSet {
    type V = Set<CompilationTarget>;

    closed spec fn view(&self) -> Set<CompilationTarget> {
        Set::new(|kind: CompilationTarget| self.holds(kind))
    }
}

impl TargetSet {
    spec fn holds(&self, kind: CompilationTarget) -> bool {
        match kind {
            CompilationTarget::Abi => self.abi,
            CompilationTarget::Ast => self.ast,
            CompilationTarget::Bytecode => self.bytecode,
            CompilationTarget::Tokens => self.tokens,
            CompilationTarget::Yul => self.yul,
        }
    }

    /// Two sets that hold the same kinds are the same value.
    pub proof fn lemma_same_kinds_same_set(self, other: TargetSet)
        requires
            self@ == other@,
        ensures
            self == other,
    {
        assert(self@.contains(CompilationTarget::Abi) == self.abi);
        assert(self@.contains(CompilationTarget::Ast) == self.ast);
        assert(self@.contains(CompilationTarget::Bytecode) == self.bytecode);
        assert(self@.contains(CompilationTarget::Tokens) == self.tokens);
        assert(self@.contains(CompilationTarget::Yul) == self.yul);
        assert(other@.contains(CompilationTarget::Abi) == other.abi);
        assert(other@.contains(CompilationTarget::Ast) == other.ast);
        assert(other@.contains(CompilationTarget::Bytecode) == other.bytecode);
        assert(other@.contains(CompilationTarget::Tokens) == other.tokens);
        assert(other@.contains(CompilationTarget::Yul) == other.yul);
    }

    fn empty() -> (set: TargetSet)
        ensures
            set@ == Set::<CompilationTarget>::empty(),
    {
        let set = TargetSet { abi: false, ast: false, bytecode: false, tokens: false, yul: false };
        assert(set@ =~= Set::<CompilationTarget>::empty());
        set
    }

    fn with(self, kind: CompilationTarget) -> (set: TargetSet)
        ensures
            set@ == self@.insert(kind),
    {
        let set = match kind {
            CompilationTarget::Abi => TargetSet { abi: true, ..self },
            CompilationTarget::Ast => TargetSet { ast: true, ..self },
            CompilationTarget::Bytecode => TargetSet { bytecode: true, ..self },
            CompilationTarget::Tokens => TargetSet { tokens: true, ..self },
            CompilationTarget::Yul => TargetSet { yul: true, ..self },
        };
        assert(set@ =~= self@.insert(kind));
        set
    }

    /// Whether `kind` was asked for.
    pub fn contains(&self, kind: CompilationTarget) -> (found: bool)
        ensures
            found == self@.contains(kind),
    {
        match kind {
            CompilationTarget::Abi => self.abi,
            CompilationTarget::Ast => self.ast,
            CompilationTarget::Bytecode => self.bytecode,
            CompilationTarget::Tokens => self.tokens,
            CompilationTarget::Yul => self.yul,
        }
    }

    /// The set of the kinds in `kinds`.  Order and repetition do not matter.
    pub fn from_targets(kinds: &[CompilationTarget]) -> (set: TargetSet)
        ensures
            set@ == kinds@.to_set(),
    {
        let mut set = TargetSet::empty();
        let mut index: usize = 0;
        while index < kinds.len()
            invariant
                index <= kinds.len(),
                set@ == kinds@.take(index as int).to_set(),
            decreases kinds.len() - index,
        {
            set = set.with(kinds[index]);
            proof {
                let before = kinds@.take(index as int);
                let after = kinds@.take(index + 1);
                assert(after =~= before.push(kinds@[index as int]));
                assert forall|kind: CompilationTarget|
                    after.to_set().contains(kind) == before.to_set().insert(
                        kinds@[index as int],
                    ).contains(kind) by {
                    if before.contains(kind) {
                        let i = choose|i: int| 0 <= i < before.len() && before[i] == kind;
                        assert(after[i] == kind);
                    }
                    if after.contains(kind) {
                        let i = choose|i: int| 0 <= i < after.len() && after[i] == kind;
                        if i < before.len() {
                            assert(before[i] == kind);
                        }
                    }
                    assert(after[index as int] == kinds@[index as int]);
                }
                assert(after.to_set() =~= before.to_set().insert(kinds@[index as int]));
            }
            index += 1;
        }
        assert(kinds@.take(index as int) =~= kinds@);
        set
    }

    /// Reads the names that the user asked for.
    ///
    /// Where every name stands for an output kind, the answer is the set of
    /// the kinds that are named, however often and in whatever order.  Where
    /// one does not, the answer is the error that holds the first such name,
    /// and no set is made at all.
    pub fn from_names(names: &[&str]) -> (result: Result<TargetSet, EmitError>)
        ensures
            result is Ok <==> all_known(texts(names@)),
            match result {
                Ok(set) => set@ == requested(texts(names@)),
                Err(error) => exists|at: int|
                    #[trigger] first_unknown(texts(names@), at) && error@ == (
                    EmitFailure::UnknownTarget { token: texts(names@)[at] }),
            },
    {
        let ghost all = texts(names@);
        let mut set = TargetSet::empty();
        let mut index: usize = 0;
        while index < names.len()
            invariant
                index <= names.len(),
                all == texts(names@),
                all_known(all.take(index as int)),
                set@ == requested(all.take(index as int)),
            decreases names.len() - index,
        {
            let ghost before = all.take(index as int);
            let ghost after = all.take(index + 1);
            assert(all[index as int] == names@[index as int]@);
            match CompilationTarget::from_name(names[index]) {
                Some(kind) => {
                    set = set.with(kind);
                    proof {
                        assert forall|k: CompilationTarget|
                            requested(after).contains(k) == requested(before).insert(kind).contains(
                                k,
                            ) by {
                            if requested(before).contains(k) {
                                let i = choose|i: int|
                                    0 <= i < before.len() && target_of_name(#[trigger] before[i])
                                        == Some(k);
                                assert(after[i] == before[i]);
                            }
                            if requested(after).contains(k) {
                                let i = choose|i: int|
                                    0 <= i < after.len() && target_of_name(#[trigger] after[i])
                                        == Some(k);
                                if i < before.len() {
                                    assert(before[i] == after[i]);
                                }
                            }
                            assert(after[index as int] == all[index as int]);
                        }
                        assert(requested(after) =~= requested(before).insert(kind));
                        assert forall|i: int| 0 <= i < after.len() implies target_of_name(
                            #[trigger] after[i],
                        ) is Some by {
                            if i < before.len() {
                                assert(before[i] == after[i]);
                            }
                        }
                    }
                },
                None => {
                    proof {
                        assert forall|i: int| 0 <= i < index implies target_of_name(
                            #[trigger] all[i],
                        ) is Some by {
                            assert(before[i] == all[i]);
                        }
                        assert(first_unknown(all, index as int));
                    }
                    return Err(EmitError::UnknownTarget { token: names[index].to_owned() });
                },
            }
            index += 1;
        }
        assert(all.take(index as int) =~= all);
        Ok(set)
    }
}

/// What is asked for depends on which names occur, not on how often or in
/// what order: two lists in which the same names occur ask for the same
/// kinds, and one of them is accepted exactly when the other is.  Naming a
/// kind twice is therefore the same as naming it once.
pub proof fn lemma_repetition_is_ignored(first: Seq<Seq<char>>, second: Seq<Seq<char>>)
    requires
        first.to_set() == second.to_set(),
    ensures
        all_known(first) == all_known(second),
        requested(first) == requested(second),
{
    lemma_occurs_in_both(first, second);
    lemma_occurs_in_both(second, first);
    assert(requested(first) =~= requested(second));
}

/// Naming everything a second time changes nothing: the doubled list is
/// accepted exactly when the list is, and asks for the same kinds.
pub proof fn lemma_doubling_changes_nothing(names: Seq<Seq<char>>)
    ensures
        all_known(names + names) == all_known(names),
        requested(names + names) == requested(names),
{
    let doubled = names + names;
    assert forall|name: Seq<char>| doubled.to_set().contains(name) == names.to_set().contains(
        name,
    ) by {
        if doubled.contains(name) {
            let i = choose|i: int| 0 <= i < doubled.len() && doubled[i] == name;
            if i < names.len() {
                assert(names[i] == name);
            } else {
                assert(names[i - names.len()] == name);
            }
        }
        if names.contains(name) {
            let i = choose|i: int| 0 <= i < names.len() && names[i] == name;
            assert(doubled[i] == name);
        }
    }
    assert(doubled.to_set() =~= names.to_set());
    lemma_repetition_is_ignored(doubled, names);
}

/// Each name of `first` occurs in `second`, so what holds of all of
/// `second`, holds of all of `first`, and what `first` asks for, `second`
/// asks for too.
proof fn lemma_occurs_in_both(first: Seq<Seq<char>>, second: Seq<Seq<char>>)
    requires
        first.to_set() == second.to_set(),
    ensures
        all_known(second) ==> all_known(first),
        forall|kind: CompilationTarget|
            requested(first).contains(kind) ==> requested(second).contains(kind),
{
    assert forall|i: int| 0 <= i < first.len() implies second.contains(#[trigger] first[i]) by {
        assert(first.contains(first[i]));
        assert(first.to_set().contains(first[i]));
        assert(second.to_set().contains(first[i]));
    }
    if all_known(second) {
        assert forall|i: int| 0 <= i < first.len() implies target_of_name(
            #[trigger] first[i],
        ) is Some by {
            let j = choose|j: int| 0 <= j < second.len() && second[j] == first[i];
            assert(target_of_name(second[j]) is Some);
        }
    }
    assert forall|kind: CompilationTarget| requested(first).contains(kind) implies requested(
        second,
    ).contains(kind) by {
        let i = choose|i: int|
            0 <= i < first.len() && target_of_name(#[trigger] first[i]) == Some(kind);
        let j = choose|j: int| 0 <= j < second.len() && second[j] == first[i];
        assert(target_of_name(second[j]) == Some(kind));
    }
}

} // verus!
