//! The declarative definition of a template: its variables, the paths to
//! ignore, the patterns exempt from rendering, and the cleanup rules.  The
//! definition is loaded once per generation and read-only thereafter.

use vstd::prelude::*;
use crate::values::{Value, ValueModel};
use crate::errors::GenError;

verus! {

/// Ghost meaning of a [`Condition`].
pub struct ConditionModel {
    pub name: Seq<char>,
    pub value: ValueModel,
}

/// Ghost meaning of a [`Variable`].
pub struct VariableModel {
    pub name: Seq<char>,
    pub prompt: Seq<char>,
    pub default: ValueModel,
    pub choices: Option<Seq<ValueModel>>,
    pub validation: Option<Seq<char>>,
    pub only_if: Option<ConditionModel>,
}

/// Ghost meaning of a [`CleanupRule`].
pub struct CleanupRuleModel {
    pub name: Seq<char>,
    pub value: ValueModel,
    pub paths: Seq<Seq<char>>,
}

/// Ghost meaning of a [`TemplateDefinition`].
pub struct DefinitionModel {
    pub variables: Seq<VariableModel>,
    pub ignore: Seq<Seq<char>>,
    pub copy_without_render: Seq<Seq<char>>,
    pub cleanup: Seq<CleanupRuleModel>,
}

/// A reference to an earlier variable and the value it must hold for the
/// owning variable to be asked at all.
#[derive(Debug)]
pub struct Condition {
    pub name: String,
    pub value: Value,
}

/// One question of the definition: its name, the prompt shown to the user,
/// a default value whose shape decides the question type, an optional closed
/// list of choices, an optional validation pattern for string answers, and
/// an optional asking condition.
#[derive(Debug)]
pub struct Variable {
    pub name: String,
    pub prompt: String,
    pub default: Value,
    pub choices: Option<Vec<Value>>,
    pub validation: Option<String>,
    pub only_if: Option<Condition>,
}

/// A post-generation deletion: when the variable `name` was collected with
/// value `value`, every rendered path of `paths` is deleted from the output.
#[derive(Debug)]
pub struct CleanupRule {
    pub name: String,
    pub value: Value,
    pub paths: Vec<String>,
}

/// The whole definition of a template.
#[derive(Debug)]
pub struct TemplateDefinition {
    pub variables: Vec<Variable>,
    pub ignore: Vec<String>,
    pub copy_without_render: Vec<String>,
    pub cleanup: Vec<CleanupRule>,
}

impl View for Condition {
    type V = ConditionModel;

    open spec fn view(&self) -> ConditionModel {
        ConditionModel { name: self.name@, value: self.value@ }
    }
}

impl View for Variable {
    type V = VariableModel;

    open spec fn view(&self) -> VariableModel {
        VariableModel {
            name: self.name@,
            prompt: self.prompt@,
            default: self.default@,
            choices: match self.choices {
                Some(cs) => Some(cs@.map_values(|v: Value| v@)),
                None => None,
            },
            validation: match self.validation {
                Some(p) => Some(p@),
                None => None,
            },
            only_if: match self.only_if {
                Some(c) => Some(c@),
                None => None,
            },
        }
    }
}

impl View for CleanupRule {
    type V = CleanupRuleModel;

    open spec fn view(&self) -> CleanupRuleModel {
        CleanupRuleModel {
            name: self.name@,
            value: self.value@,
            paths: crate::text::spec_texts(self.paths@),
        }
    }
}

impl View for TemplateDefinition {
    type V = DefinitionModel;

    open spec fn view(&self) -> DefinitionModel {
        DefinitionModel {
            variables: self.variables@.map_values(|v: Variable| v@),
            ignore: crate::text::spec_texts(self.ignore@),
            copy_without_render: crate::text::spec_texts(self.copy_without_render@),
            cleanup: self.cleanup@.map_values(|r: CleanupRule| r@),
        }
    }
}

/// Every condition of the definition refers to a variable declared strictly
/// earlier; a forward or self reference could never be satisfied.
pub open spec fn spec_condition_ok_at(vars: Seq<VariableModel>, i: int) -> bool {
    match vars[i].only_if {
        Some(c) => exists|j: int| 0 <= j < i && (#[trigger] vars[j]).name == c.name,
        None => true,
    }
}

pub open spec fn spec_conditions_well_ordered(vars: Seq<VariableModel>) -> bool {
    forall|i: int| 0 <= i < vars.len() ==> #[trigger] spec_condition_ok_at(vars, i)
}

/// Check at load time that every `only_if` condition refers to a variable
/// declared strictly earlier in the definition; a condition naming a later
/// variable, the owning variable itself, or no variable at all makes the
/// definition invalid.
pub fn validate_definition(def: &TemplateDefinition) -> (r: Result<(), GenError>)
    ensures
        r is Ok <==> spec_conditions_well_ordered(def@.variables),
        r matches Err(e) ==> e@ == crate::errors::ErrorModel::InvalidDefinition,
{
    let n = def.variables.len();
    let mut i: usize = 0;
    while i < n
        invariant
            i <= n,
            n == def.variables@.len(),
            def@.variables.len() == n,
            forall|k: int| 0 <= k < i ==> #[trigger] spec_condition_ok_at(def@.variables, k),
        decreases n - i,
    {
        if let Some(cond) = &def.variables[i].only_if {
            let mut found = false;
            let mut j: usize = 0;
            while j < i
                invariant
                    j <= i,
                    i < n,
                    n == def.variables@.len(),
                    def@.variables.len() == n,
                    found == exists|k: int|
                        0 <= k < j && (#[trigger] def@.variables[k]).name == cond.name@,
                decreases i - j,
            {
                let eq = crate::text::str_eq(def.variables[j].name.as_str(), cond.name.as_str());
                proof {
                    assert(def@.variables[j as int] == def.variables@[j as int]@);
                }
                if eq {
                    found = true;
                    proof {
                        assert(0 <= j < j + 1 && def@.variables[j as int].name == cond.name@);
                    }
                }
                j = j + 1;
            }
            proof {
                assert(def@.variables[i as int].only_if == Some(cond@));
            }
            if !found {
                proof {
                    assert(!spec_condition_ok_at(def@.variables, i as int));
                    assert(!spec_conditions_well_ordered(def@.variables));
                }
                return Err(GenError::InvalidDefinition);
            }
        } else {
            proof {
                assert(def@.variables[i as int].only_if is None);
            }
        }
        i = i + 1;
    }
    Ok(())
}

} // verus!
