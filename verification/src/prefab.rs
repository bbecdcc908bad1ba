//! Parsed descriptions: ordered build steps and their views.

use vstd::prelude::*;

use std::sync::Arc;

use crate::dynamic_value::DVal;
use crate::dynamic_value::DynamicStruct;
use crate::dynamic_value::DynamicValue;

verus! {

/// The specification-level form of a [`PrefabComponent`].
pub struct CompV {
    pub ty_name: Seq<char>,
    pub value: DVal,
}

/// The specification-level form of a [`PrefabCommandData`].
pub struct CmdV {
    pub name: Seq<char>,
    pub properties: Option<Map<Seq<char>, DVal>>,
}

/// The specification-level form of a [`PrefabBuildStep`].
pub enum StepV {
    AddComponent(CompV),
    RunCommand(CmdV),
}

/// The specification-level form of a [`Prefab`].
pub struct PrefabV {
    pub name: Option<Seq<char>>,
    pub steps: Seq<StepV>,
}

/// A typed value to attach: the registered type's name and the value built
/// against its shape.
#[derive(Debug)]
pub struct PrefabComponent {
    pub ty_name: String,
    pub reflect: DynamicValue,
}

/// A build command invocation: the command's name and, when arguments were
/// given, a record of named properties.  The command itself is resolved at
/// apply time, not at parse time.
#[derive(Debug)]
pub struct PrefabCommandData {
    pub name: String,
    pub properties: Option<DynamicStruct>,
}

/// One step of a description, applied in source order.
#[derive(Debug)]
pub enum PrefabBuildStep {
    AddComponent(Arc<PrefabComponent>),
    RunCommand(Arc<PrefabCommandData>),
}

/// A parsed description: an optional name and its ordered build steps.
#[derive(Debug)]
pub struct Prefab {
    pub name: Option<String>,
    pub steps: Vec<PrefabBuildStep>,
}

impl View for PrefabComponent {
    type V = CompV;

    open spec fn view(&self) -> CompV {
        CompV { ty_name: self.ty_name@, value: self.reflect@ }
    }
}

impl View for PrefabCommandData {
    type V = CmdV;

    open spec fn view(&self) -> CmdV {
        CmdV {
            name: self.name@,
            properties: match self.properties {
                Some(p) => Some(p@),
                None => None,
            },
        }
    }
}

impl View for PrefabBuildStep {
    type V = StepV;

    open spec fn view(&self) -> StepV {
        match self {
            PrefabBuildStep::AddComponent(c) => StepV::AddComponent(c@),
            PrefabBuildStep::RunCommand(c) => StepV::RunCommand(c@),
        }
    }
}

/// The steps a sequence of build steps denotes, in order.
pub open spec fn steps_view(steps: Seq<PrefabBuildStep>) -> Seq<StepV> {
    Seq::new(steps.len(), |i: int| steps[i]@)
}

impl View for Prefab {
    type V = PrefabV;

    open spec fn view(&self) -> PrefabV {
        PrefabV {
            name: match self.name {
                Some(n) => Some(n@),
                None => None,
            },
            steps: steps_view(self.steps@),
        }
    }
}

} // verus!
