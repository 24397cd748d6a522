//! The dispatch that the component generator writes: one match arm per
//! variant of the component enum, rendering the variant's component.
use crate::table::TextMap;
use crate::walk::{CompInfo, CompInfoView, FieldView};
use vstd::prelude::*;

verus! {

/// The upper-case form of a text, by Unicode case mapping.
pub uninterp spec fn upper_text(s: Seq<char>) -> Seq<char>;

/// Calls `str::to_uppercase`; the result is named by `upper_text`, and its
/// documentation gives no more that a caller here needs.
#[verifier::external_body]
fn to_upper(s: &str) -> (r: String)
    ensures
        r@ == upper_text(s@),
{
    s.to_uppercase()
}

/// One arm of the dispatch.
#[derive(Debug, Clone, PartialEq, Eq)]
pub struct Arm {
    /// The variant matched.
    pub variant: String,
    /// The component rendered: the variant's name followed by `_`.
    pub component: String,
    /// Whether the component receives the children.
    pub with_children: bool,
    /// For variants with an id: the name of the counter that numbers their
    /// instances, and the format of the id (`name-{}`).
    pub counter: Option<(String, String)>,
}

/// An arm as plain text.
pub struct ArmView {
    pub variant: Seq<char>,
    pub component: Seq<char>,
    pub with_children: bool,
    pub counter: Option<(Seq<char>, Seq<char>)>,
}

impl View for Arm {
    type V = ArmView;

    open spec fn view(&self) -> ArmView {
        ArmView {
            variant: self.variant@,
            component: self.component@,
            with_children: self.with_children,
            counter: match self.counter {
                Some(c) => Some((c.0@, c.1@)),
                None => None,
            },
        }
    }
}

/// What the generator knows, as plain values.
pub open spec fn info_view(info: Map<Seq<char>, CompInfo>) -> Map<Seq<char>, CompInfoView> {
    info.map_values(|c: CompInfo| c@)
}

/// Why no dispatch can be planned.
#[derive(Debug, Clone, PartialEq, Eq)]
pub enum PlanError {
    /// The entry type is not among the definitions.
    NoFields,
    /// The entry type is not an enum.
    NoEnum,
}

/// Whether the component type of every variant of the entry enum is a struct
/// among the definitions (the generator stops with a panic otherwise).
pub open spec fn variants_resolve(info: Map<Seq<char>, CompInfoView>, entry: Seq<char>) -> bool {
    info.contains_key(entry) && info[entry] is Enum ==> {
        let fields = info[entry]->Enum_fields;
        forall|i: int| 0 <= i < fields.len() ==> {
            &&& info.contains_key((#[trigger] fields[i]).ty_name)
            &&& info[fields[i].ty_name] is Struct
        }
    }
}

/// The arm for a variant.
pub open spec fn arm_of(info: Map<Seq<char>, CompInfoView>, f: FieldView) -> ArmView {
    ArmView {
        variant: f.name,
        component: f.name + "_"@,
        with_children: info[f.ty_name]->Struct_has_sub,
        counter: if f.has_id {
            Some((upper_text(f.name + "_id"@), f.name + "-{}"@))
        } else {
            None
        },
    }
}

/// The planned dispatch for `entry`: one arm per variant, in order.
pub open spec fn plan_of(info: Map<Seq<char>, CompInfoView>, entry: Seq<char>) -> Result<Seq<ArmView>, PlanError> {
    if !info.contains_key(entry) {
        Err(PlanError::NoFields)
    } else {
        match info[entry] {
            CompInfoView::Enum { fields } => Ok(fields.map_values(|f: FieldView| arm_of(info, f))),
            _ => Err(PlanError::NoEnum),
        }
    }
}

/// Whether every variant of the entry enum has a struct as component type.
pub fn check_variants(info: &TextMap<CompInfo>, entry: &String) -> (b: bool)
    ensures
        b == variants_resolve(info_view(info@), entry@),
{
    match info.get(entry) {
        Some(CompInfo::Enum { fields }) => {
            let mut i: usize = 0;
            while i < fields.len()
                invariant
                    i <= fields.len(),
                    info@.contains_key(entry@),
                    info@[entry@] == (CompInfo::Enum { fields: *fields }),
                    forall|j: int| 0 <= j < i ==> {
                        &&& info@.contains_key((#[trigger] fields@[j]).ty_name@)
                        &&& info@[fields@[j].ty_name@] is Struct
                    },
                decreases fields.len() - i,
            {
                match info.get(&fields[i].ty_name) {
                    Some(CompInfo::Struct { .. }) => {},
                    _ => {
                        assert(!variants_resolve(info_view(info@), entry@)) by {
                            let fv = info@[entry@]@->Enum_fields;
                            assert(fv[i as int] == fields@[i as int]@);
                        }
                        return false;
                    },
                }
                i += 1;
            }
            assert(variants_resolve(info_view(info@), entry@)) by {
                let fv = info@[entry@]@->Enum_fields;
                assert forall|j: int| 0 <= j < fv.len() implies {
                    &&& info@.contains_key((#[trigger] fv[j]).ty_name)
                    &&& info@[fv[j].ty_name] is Struct
                } by {
                    assert(fv[j] == fields@[j]@);
                }
            }
            true
        },
        _ => true,
    }
}

/// Plans the dispatch for the entry enum: for each variant, the arm that
/// renders the component named after it, with the children when the
/// component's struct has them, and with a numbered id when the variant
/// carries `has_id = "true"`.
pub fn gen_match_plan(info: &TextMap<CompInfo>, entry: &String) -> (r: Result<Vec<Arm>, PlanError>)
    requires
        variants_resolve(info_view(info@), entry@),
    ensures
        match plan_of(info_view(info@), entry@) {
            Ok(arms) => r matches Ok(v) && v@.map_values(|a: Arm| a@) == arms,
            Err(e) => r matches Err(e2) && e2 == e,
        },
{
    let fields = match info.get(entry) {
        None => {
            return Err(PlanError::NoFields);
        },
        Some(CompInfo::Enum { fields }) => fields,
        Some(_) => {
            return Err(PlanError::NoEnum);
        },
    };
    let ghost fv = info@[entry@]@->Enum_fields;
    let mut arms: Vec<Arm> = Vec::new();
    let mut i: usize = 0;
    while i < fields.len()
        invariant
            i <= fields.len(),
            fv == fields@.map_values(|f: crate::walk::Field| f@),
            variants_resolve(info_view(info@), entry@),
            info@.contains_key(entry@),
            info@[entry@] == (CompInfo::Enum { fields: *fields }),
            arms@.len() == i,
            forall|j: int| 0 <= j < i ==> (#[trigger] arms@[j])@ == arm_of(info_view(info@), fv[j]),
        decreases fields.len() - i,
    {
        let f = &fields[i];
        assert(fv[i as int] == f@);
        let with_children = match info.get(&f.ty_name) {
            Some(CompInfo::Struct { has_sub, .. }) => *has_sub,
            _ => {
                assert(false);
                false
            },
        };
        let component = f.name.clone().concat("_");
        let counter = if f.has_id {
            let static_name = to_upper(f.name.clone().concat("_id").as_str());
            let format = f.name.clone().concat("-{}");
            Some((static_name, format))
        } else {
            None
        };
        arms.push(Arm { variant: f.name.clone(), component, with_children, counter });
        i += 1;
    }
    assert(arms@.map_values(|a: Arm| a@) =~= fv.map_values(|f: FieldView| arm_of(info_view(info@), f)));
    Ok(arms)
}


/// The variants of the entry enum resolve only when each of them, at every
/// position, wraps a type that the definitions declare as a struct.
pub proof fn law_every_variant_resolves(info: Map<Seq<char>, CompInfoView>, entry: Seq<char>, i: int)
    requires
        variants_resolve(info, entry),
        info.contains_key(entry),
        info[entry] is Enum,
        0 <= i < info[entry]->Enum_fields.len(),
    ensures
        info.contains_key(info[entry]->Enum_fields[i].ty_name),
        info[info[entry]->Enum_fields[i].ty_name] is Struct,
{
    let fields = info[entry]->Enum_fields;
    assert(info.contains_key(fields[i].ty_name));
}

} // verus!
