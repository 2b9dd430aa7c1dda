//! The service catalog models: the simplified API model of operations
//! and shapes, and the curated service reference that maps operations
//! to IAM actions and resources.

use vstd::prelude::*;
use vstd::string::StringExecFns;
use crate::arguments::views_of_strings;
use crate::arn::ArnTemplateInfo;
use crate::errors::ExtractorError;
use crate::text::{str_eq, str_to_chars};

verus! {

/// A reference to a shape by name.
#[derive(Debug, Clone)]
pub struct ShapeRef {
    /// The referenced shape's name.
    pub shape: String,
}

/// A shape of the API model.
#[derive(Debug, Clone)]
pub struct Shape {
    /// The shape's type, such as `structure` or `string`.
    pub shape_type: String,
    /// The members, by name, for structure shapes.
    pub members: Vec<(String, ShapeRef)>,
    /// The names of the required members, when any are required.
    pub required: Option<Vec<String>>,
}

/// An operation of the API model: its optional input shape.
#[derive(Debug, Clone)]
pub struct OperationShape {
    /// The input shape reference, when the operation takes input.
    pub input: Option<ShapeRef>,
}

/// One service's simplified API model.
#[derive(Debug, Clone)]
pub struct ServiceDefinition {
    /// The operations, by name.
    pub operations: Vec<(String, OperationShape)>,
    /// The shapes, by name.
    pub shapes: Vec<(String, Shape)>,
}

/// One member of an operation's input shape, with its requiredness and
/// type.
#[derive(Debug, Clone)]
pub struct InputMemberInfo {
    /// The service.
    pub service_name: String,
    /// The service's API version.
    pub api_version: String,
    /// The operation.
    pub operation_name: String,
    /// The operation's input shape.
    pub input_shape_name: String,
    /// The member's name.
    pub member_name: String,
    /// Whether the member is required.
    pub is_required: bool,
    /// The shape the member references.
    pub member_shape_name: String,
    /// That shape's type, or `unknown` when it is missing.
    pub member_shape_type: String,
}

/// Mathematical model of an `InputMemberInfo`.
pub struct InputMemberModel {
    pub service_name: Seq<char>,
    pub api_version: Seq<char>,
    pub operation_name: Seq<char>,
    pub input_shape_name: Seq<char>,
    pub member_name: Seq<char>,
    pub is_required: bool,
    pub member_shape_name: Seq<char>,
    pub member_shape_type: Seq<char>,
}

impl View for InputMemberInfo {
    type V = InputMemberModel;

    open spec fn view(&self) -> InputMemberModel {
        InputMemberModel {
            service_name: self.service_name@,
            api_version: self.api_version@,
            operation_name: self.operation_name@,
            input_shape_name: self.input_shape_name@,
            member_name: self.member_name@,
            is_required: self.is_required,
            member_shape_name: self.member_shape_name@,
            member_shape_type: self.member_shape_type@,
        }
    }
}

pub open spec fn views_of_members(v: Seq<InputMemberInfo>) -> Seq<InputMemberModel> {
    v.map_values(|m: InputMemberInfo| m@)
}

/// First shape bound to `name`.
pub open spec fn shape_lookup(shapes: Seq<(String, Shape)>, name: Seq<char>) -> Option<Shape>
    decreases shapes.len(),
{
    if shapes.len() == 0 {
        None
    } else if shapes[0].0@ == name {
        Some(shapes[0].1)
    } else {
        shape_lookup(shapes.subrange(1, shapes.len() as int), name)
    }
}

/// A string list holds `x`.
pub open spec fn list_has(xs: Seq<Seq<char>>, x: Seq<char>) -> bool {
    xs.contains(x)
}

/// The type recorded for a member: the referenced shape's type, or
/// `unknown` when the shape is missing.
pub open spec fn member_type_spec(shapes: Seq<(String, Shape)>, shape_name: Seq<char>) -> Seq<
    char,
> {
    match shape_lookup(shapes, shape_name) {
        Some(s) => s.shape_type@,
        None => "unknown"@,
    }
}

/// The names recorded as required for a shape.
pub open spec fn required_names(shape: Shape) -> Seq<Seq<char>> {
    match shape.required {
        Some(r) => views_of_strings(r@),
        None => Seq::empty(),
    }
}

/// The member records of one structure shape, in member order.
pub open spec fn members_spec(
    service_name: Seq<char>,
    api_version: Seq<char>,
    operation_name: Seq<char>,
    input_shape_name: Seq<char>,
    shape: Shape,
    shapes: Seq<(String, Shape)>,
    k: int,
) -> Seq<InputMemberModel>
    decreases shape.members@.len() - k when 0 <= k <= shape.members@.len()
{
    if k >= shape.members@.len() {
        Seq::empty()
    } else {
        seq![
            InputMemberModel {
                service_name,
                api_version,
                operation_name,
                input_shape_name,
                member_name: shape.members@[k].0@,
                is_required: list_has(required_names(shape), shape.members@[k].0@),
                member_shape_name: shape.members@[k].1.shape@,
                member_shape_type: member_type_spec(shapes, shape.members@[k].1.shape@),
            },
        ] + members_spec(
            service_name,
            api_version,
            operation_name,
            input_shape_name,
            shape,
            shapes,
            k + 1,
        )
    }
}

/// The message of the non-structure input shape error.
pub open spec fn not_structure_msg(
    input_shape_name: Seq<char>,
    service_name: Seq<char>,
    operation_name: Seq<char>,
    shape_type: Seq<char>,
) -> Seq<char> {
    "Expected input shape "@ + input_shape_name + " for operation "@ + service_name + ":"@
        + operation_name + " to be a structure, but found type: "@ + shape_type
}

/// The member records of every operation from index `k` on; operations
/// without input or with a missing shape are passed over; an input
/// shape that is not a structure is the error case.
pub open spec fn collect_members_spec(
    service_name: Seq<char>,
    api_version: Seq<char>,
    def: ServiceDefinition,
    k: int,
) -> Result<Seq<InputMemberModel>, Seq<char>>
    decreases def.operations@.len() - k when 0 <= k <= def.operations@.len()
{
    if k >= def.operations@.len() {
        Ok(Seq::empty())
    } else {
        let rest = collect_members_spec(service_name, api_version, def, k + 1);
        match def.operations@[k].1.input {
            None => rest,
            Some(input_ref) => match shape_lookup(def.shapes@, input_ref.shape@) {
                None => rest,
                Some(shape) => if shape.shape_type@ != "structure"@ {
                    Err(
                        not_structure_msg(
                            input_ref.shape@,
                            service_name,
                            def.operations@[k].0@,
                            shape.shape_type@,
                        ),
                    )
                } else {
                    match rest {
                        Err(t) => Err(t),
                        Ok(tail) => Ok(
                            members_spec(
                                service_name,
                                api_version,
                                def.operations@[k].0@,
                                input_ref.shape@,
                                shape,
                                def.shapes@,
                                0,
                            ) + tail,
                        ),
                    }
                },
            },
        }
    }
}

/// Looks a shape up by name.
fn shape_lookup_exec<'a>(shapes: &'a Vec<(String, Shape)>, name: &str) -> (r: Option<&'a Shape>)
    ensures
        match r {
            Some(s) => shape_lookup(shapes@, name@) == Some(*s),
            None => shape_lookup(shapes@, name@) is None,
        },
{
    let ghost sv = shapes@;
    let mut k: usize = 0;
    proof {
        assert(sv.subrange(0, sv.len() as int) =~= sv);
    }
    while k < shapes.len()
        invariant
            k <= shapes@.len(),
            sv == shapes@,
            shape_lookup(sv, name@) == shape_lookup(sv.subrange(k as int, sv.len() as int), name@),
        decreases shapes@.len() - k,
    {
        proof {
            let tail = sv.subrange(k as int, sv.len() as int);
            assert(tail[0] == sv[k as int]);
            assert(tail.subrange(1, tail.len() as int) =~= sv.subrange(k + 1, sv.len() as int));
        }
        if str_eq(shapes[k].0.as_str(), name) {
            return Some(&shapes[k].1);
        }
        k += 1;
    }
    proof {
        assert(sv.subrange(sv.len() as int, sv.len() as int) =~= Seq::<(String, Shape)>::empty());
    }
    None
}

/// Membership of a name among the views of a vector.
pub(crate) fn names_contain(v: &Vec<String>, s: &str) -> (r: bool)
    ensures
        r == views_of_strings(v@).contains(s@),
{
    let mut k: usize = 0;
    while k < v.len()
        invariant
            k <= v@.len(),
            forall|m: int| 0 <= m < k ==> views_of_strings(v@)[m] != s@,
        decreases v@.len() - k,
    {
        proof {
            assert(views_of_strings(v@)[k as int] == v@[k as int]@);
        }
        if str_eq(v[k].as_str(), s) {
            return true;
        }
        k += 1;
    }
    proof {
        if views_of_strings(v@).contains(s@) {
            let w = choose|i: int|
                0 <= i < views_of_strings(v@).len() && views_of_strings(v@)[i] == s@;
            assert(false);
        }
    }
    false
}

/// Walks every operation of the service definition and records, for
/// each member of each structure input shape, its name, requiredness
/// and type.  An input shape that is not a structure fails the walk
/// with a validation error naming the shape, the operation and the
/// type found.
pub fn collect_input_members(
    service_name: &str,
    api_version: &str,
    def: &ServiceDefinition,
) -> (r: Result<Vec<InputMemberInfo>, ExtractorError>)
    ensures
        match r {
            Ok(v) => collect_members_spec(service_name@, api_version@, *def, 0)
                == Ok::<_, Seq<char>>(views_of_members(v@)),
            Err(e) => {
                &&& collect_members_spec(service_name@, api_version@, *def, 0) is Err
                &&& e matches ExtractorError::Validation { message, field }
                &&& message@ == collect_members_spec(service_name@, api_version@, *def, 0)->Err_0
                &&& field is None
            },
        },
{
    let ghost sn = service_name@;
    let ghost av = api_version@;
    let n = def.operations.len();
    let mut i: usize = 0;
    let mut res: Vec<InputMemberInfo> = Vec::new();
    proof {
        assert(views_of_members(res@) =~= Seq::<InputMemberModel>::empty());
        match collect_members_spec(sn, av, *def, 0) {
            Err(t) => {},
            Ok(tail) => {
                assert(views_of_members(res@) + tail =~= tail);
            },
        }
    }
    while i < n
        invariant
            i <= n,
            n == def.operations@.len(),
            sn == service_name@,
            av == api_version@,
            collect_members_spec(sn, av, *def, 0) == (match collect_members_spec(
                sn,
                av,
                *def,
                i as int,
            ) {
                Err(t) => Err(t),
                Ok(tail) => Ok(views_of_members(res@) + tail),
            }),
        decreases n - i,
    {
        let op_input = &def.operations[i].1.input;
        match op_input {
            None => {},
            Some(input_ref) => {
                match shape_lookup_exec(&def.shapes, input_ref.shape.as_str()) {
                    None => {},
                    Some(shape) => {
                        if !str_eq(shape.shape_type.as_str(), "structure") {
                            let mut m = String::from_str("Expected input shape ");
                            m.append(input_ref.shape.as_str());
                            m.append(" for operation ");
                            m.append(service_name);
                            m.append(":");
                            m.append(def.operations[i].0.as_str());
                            m.append(" to be a structure, but found type: ");
                            m.append(shape.shape_type.as_str());
                            return Err(ExtractorError::Validation { message: m, field: None });
                        }
                        // Members of this structure shape.
                        let ghost opname = def.operations@[i as int].0@;
                        let ghost shname = input_ref.shape@;
                        let mut j: usize = 0;
                        let ghost pre = views_of_members(res@);
                        while j < shape.members.len()
                            invariant
                                j <= shape.members@.len(),
                                i < def.operations@.len(),
                                sn == service_name@,
                                av == api_version@,
                                opname == def.operations@[i as int].0@,
                                shname == input_ref.shape@,
                                shape_lookup(def.shapes@, input_ref.shape@) == Some(*shape),
                                pre + members_spec(sn, av, opname, shname, *shape, def.shapes@, 0)
                                    == views_of_members(res@) + members_spec(
                                    sn,
                                    av,
                                    opname,
                                    shname,
                                    *shape,
                                    def.shapes@,
                                    j as int,
                                ),
                            decreases shape.members@.len() - j,
                        {
                            let member_name = shape.members[j].0.clone();
                            let member_shape_name = shape.members[j].1.shape.clone();
                            let is_required = match &shape.required {
                                Some(req) => names_contain(req, member_name.as_str()),
                                None => false,
                            };
                            let member_shape_type = match shape_lookup_exec(
                                &def.shapes,
                                member_shape_name.as_str(),
                            ) {
                                Some(s) => s.shape_type.clone(),
                                None => String::from_str("unknown"),
                            };
                            let info = InputMemberInfo {
                                service_name: service_name.to_owned(),
                                api_version: api_version.to_owned(),
                                operation_name: def.operations[i].0.clone(),
                                input_shape_name: input_ref.shape.clone(),
                                member_name,
                                is_required,
                                member_shape_name,
                                member_shape_type,
                            };
                            let ghost im = info@;
                            let ghost old_res = res@;
                            res.push(info);
                            proof {
                                assert(required_names(*shape) =~= (match shape.required {
                                    Some(r) => views_of_strings(r@),
                                    None => Seq::<Seq<char>>::empty(),
                                }));
                                assert(views_of_members(res@) =~= views_of_members(
                                    old_res,
                                ).push(im));
                                assert(views_of_members(old_res) + (seq![im] + members_spec(
                                    sn,
                                    av,
                                    opname,
                                    shname,
                                    *shape,
                                    def.shapes@,
                                    j + 1,
                                )) =~= views_of_members(res@) + members_spec(
                                    sn,
                                    av,
                                    opname,
                                    shname,
                                    *shape,
                                    def.shapes@,
                                    j + 1,
                                ));
                            }
                            j += 1;
                        }
                        proof {
                            assert(views_of_members(res@) + Seq::<InputMemberModel>::empty()
                                =~= views_of_members(res@));
                            assert(views_of_members(res@) =~= pre + members_spec(
                                sn,
                                av,
                                opname,
                                shname,
                                *shape,
                                def.shapes@,
                                0,
                            ));
                            match collect_members_spec(sn, av, *def, i + 1) {
                                Err(t) => {},
                                Ok(tail) => {
                                    assert(pre + (members_spec(
                                        sn,
                                        av,
                                        opname,
                                        shname,
                                        *shape,
                                        def.shapes@,
                                        0,
                                    ) + tail) =~= views_of_members(res@) + tail);
                                },
                            }
                        }
                    },
                }
            },
        }
        i += 1;
    }
    proof {
        assert(views_of_members(res@) + Seq::<InputMemberModel>::empty() =~= views_of_members(
            res@,
        ));
    }
    Ok(res)
}

/// One SDK method of an operation.
#[derive(Debug, Clone)]
pub struct SdkMethod {
    /// The method's surface name.
    pub name: String,
}

/// One authorized action of an operation.
#[derive(Debug, Clone)]
pub struct AuthorizedAction {
    /// The service the action belongs to.
    pub service: String,
    /// The action's name, `service:Operation`.
    pub name: String,
}

/// An action entry of the service reference.
#[derive(Debug, Clone)]
pub struct RefAction {
    /// The action's bare name.
    pub name: String,
    /// The resource-type names the action works on.
    pub resources: Vec<String>,
    /// The condition keys of the action.
    pub condition_keys: Vec<String>,
}

/// One operation of the service reference.
#[derive(Debug, Clone)]
pub struct ServiceReferenceOperation {
    /// The SDK methods that reach the operation.
    pub sdk: Vec<SdkMethod>,
    /// The actions the operation requires.
    pub authorized_actions: Vec<AuthorizedAction>,
}

/// One service's curated reference: actions, resource types with their
/// ARN templates, and the operation table.
#[derive(Debug, Clone)]
pub struct ServiceReference {
    /// The service's name.
    pub service_name: String,
    /// The actions, by bare name.
    pub actions: Vec<(String, RefAction)>,
    /// The resource types, by name, each with its ARN templates.
    pub resources: Vec<(String, Vec<String>)>,
    /// The operation table, when the service has one.
    pub operation_to_authorized_actions: Option<Vec<(String, ServiceReferenceOperation)>>,
}

/// A resource of an action, with the scanned templates of its type.
#[derive(Debug, Clone)]
pub struct ResourceInfo {
    /// The resource-type name.
    pub name: String,
    /// The templates, each with its collected variables.
    pub arn: Vec<ArnTemplateInfo>,
}

/// An action together with the resource details found for it.
#[derive(Debug, Clone)]
pub struct EnrichedAction {
    /// The action as the reference holds it.
    pub action: RefAction,
    /// The resource details, when the action has resources with
    /// template entries.
    pub resource_details: Option<Vec<ResourceInfo>>,
}

/// The index of the last colon of `s`, or `-1`.
pub open spec fn last_colon_idx(s: Seq<char>) -> int
    decreases s.len(),
{
    if s.len() == 0 {
        -1
    } else if s[s.len() - 1] == ':' {
        s.len() - 1
    } else {
        last_colon_idx(s.subrange(0, s.len() - 1))
    }
}

/// The bare action name: what follows the last colon.
pub open spec fn action_key_spec(s: Seq<char>) -> Seq<char> {
    if last_colon_idx(s) == -1 {
        s
    } else {
        s.subrange(last_colon_idx(s) + 1, s.len() as int)
    }
}

/// First action bound to `name`.
pub open spec fn action_lookup(actions: Seq<(String, RefAction)>, name: Seq<char>) -> Option<
    RefAction,
>
    decreases actions.len(),
{
    if actions.len() == 0 {
        None
    } else if actions[0].0@ == name {
        Some(actions[0].1)
    } else {
        action_lookup(actions.subrange(1, actions.len() as int), name)
    }
}

/// First template list bound to `name`.
pub open spec fn resource_templates_lookup(
    table: Seq<(String, Vec<String>)>,
    name: Seq<char>,
) -> Option<Seq<Seq<char>>>
    decreases table.len(),
{
    if table.len() == 0 {
        None
    } else if table[0].0@ == name {
        Some(views_of_strings(table[0].1@))
    } else {
        resource_templates_lookup(table.subrange(1, table.len() as int), name)
    }
}

/// Mathematical model of a `ResourceInfo`: its name and the template
/// texts.
pub struct ResourceInfoModel {
    pub name: Seq<char>,
    pub templates: Seq<Seq<char>>,
}

/// The template texts of a scanned template list.
pub open spec fn templates_of_infos(v: Seq<ArnTemplateInfo>) -> Seq<Seq<char>> {
    v.map_values(|t: ArnTemplateInfo| t.arn_template@)
}

impl View for ResourceInfo {
    type V = ResourceInfoModel;

    open spec fn view(&self) -> ResourceInfoModel {
        ResourceInfoModel { name: self.name@, templates: templates_of_infos(self.arn@) }
    }
}

pub open spec fn views_of_resource_infos(v: Seq<ResourceInfo>) -> Seq<ResourceInfoModel> {
    v.map_values(|r: ResourceInfo| r@)
}

/// Every scanned template records exactly the variables of its text.
pub open spec fn resource_infos_wf(v: Seq<ResourceInfo>) -> bool {
    forall|i: int, j: int|
        0 <= i < v.len() && 0 <= j < v[i].arn@.len() ==> views_of_strings(
            (#[trigger] v[i].arn@[j]).arn_variables@,
        ) == crate::arn::template_vars_spec(v[i].arn@[j].arn_template@)
}

/// The resource details of an action: one record per resource name the
/// resource table knows, each with the template texts of that name.
pub open spec fn details_spec(
    names: Seq<Seq<char>>,
    table: Seq<(String, Vec<String>)>,
    k: int,
) -> Seq<ResourceInfoModel>
    decreases names.len() - k when 0 <= k <= names.len()
{
    if k >= names.len() {
        Seq::empty()
    } else {
        match resource_templates_lookup(table, names[k]) {
            Some(ts) => seq![ResourceInfoModel { name: names[k], templates: ts }] + details_spec(
                names,
                table,
                k + 1,
            ),
            None => details_spec(names, table, k + 1),
        }
    }
}

/// Copies an action entry field by field.
fn clone_ref_action(a: &RefAction) -> (r: RefAction)
    ensures
        r.name@ == a.name@,
        views_of_strings(r.resources@) == views_of_strings(a.resources@),
        views_of_strings(r.condition_keys@) == views_of_strings(a.condition_keys@),
{
    RefAction {
        name: a.name.clone(),
        resources: crate::policy::clone_string_vec(&a.resources),
        condition_keys: crate::policy::clone_string_vec(&a.condition_keys),
    }
}

/// The bare action name: what follows the last colon.
pub fn action_key_exec(action_name: &str) -> (r: Vec<char>)
    ensures
        r@ == action_key_spec(action_name@),
{
    let v = str_to_chars(action_name);
    let mut j: usize = v.len();
    proof {
        assert(v@.subrange(0, v@.len() as int) =~= v@);
    }
    while j > 0 && v[j - 1] != ':'
        invariant
            j <= v@.len(),
            v@ == action_name@,
            last_colon_idx(v@) == last_colon_idx(v@.subrange(0, j as int)),
        decreases j,
    {
        proof {
            let head = v@.subrange(0, j as int);
            assert(head[j - 1] == v@[j - 1]);
            assert(head.subrange(0, head.len() - 1) =~= v@.subrange(0, j - 1));
        }
        j -= 1;
    }
    proof {
        let head = v@.subrange(0, j as int);
        if j > 0 {
            assert(head[j - 1] == v@[j - 1]);
            assert(last_colon_idx(v@) == j - 1);
        } else {
            assert(head =~= Seq::<char>::empty());
            assert(last_colon_idx(v@) == -1);
        }
    }
    let r = crate::text::copy_range(&v, j, v.len());
    proof {
        if j == 0 {
            assert(r@ =~= v@);
        }
    }
    r
}

/// Looks an action up by its bare name.
pub(crate) fn action_lookup_exec<'a>(actions: &'a Vec<(String, RefAction)>, name: &str) -> (r: Option<
    &'a RefAction,
>)
    ensures
        match r {
            Some(a) => action_lookup(actions@, name@) == Some(*a),
            None => action_lookup(actions@, name@) is None,
        },
{
    let ghost av = actions@;
    let mut k: usize = 0;
    proof {
        assert(av.subrange(0, av.len() as int) =~= av);
    }
    while k < actions.len()
        invariant
            k <= actions@.len(),
            av == actions@,
            action_lookup(av, name@) == action_lookup(
                av.subrange(k as int, av.len() as int),
                name@,
            ),
        decreases actions@.len() - k,
    {
        proof {
            let tail = av.subrange(k as int, av.len() as int);
            assert(tail[0] == av[k as int]);
            assert(tail.subrange(1, tail.len() as int) =~= av.subrange(k + 1, av.len() as int));
        }
        if str_eq(actions[k].0.as_str(), name) {
            return Some(&actions[k].1);
        }
        k += 1;
    }
    proof {
        assert(av.subrange(av.len() as int, av.len() as int) =~= Seq::<(
            String,
            RefAction,
        )>::empty());
    }
    None
}

/// Looks a resource type's templates up by name.
pub(crate) fn resource_templates_exec<'a>(table: &'a Vec<(String, Vec<String>)>, name: &str) -> (r: Option<
    &'a Vec<String>,
>)
    ensures
        match r {
            Some(ts) => resource_templates_lookup(table@, name@) == Some(views_of_strings(ts@)),
            None => resource_templates_lookup(table@, name@) is None,
        },
{
    let ghost tv = table@;
    let mut t: usize = 0;
    proof {
        assert(tv.subrange(0, tv.len() as int) =~= tv);
    }
    while t < table.len()
        invariant
            t <= table@.len(),
            tv == table@,
            resource_templates_lookup(tv, name@) == resource_templates_lookup(
                tv.subrange(t as int, tv.len() as int),
                name@,
            ),
        decreases table@.len() - t,
    {
        proof {
            let tail = tv.subrange(t as int, tv.len() as int);
            assert(tail[0] == tv[t as int]);
            assert(tail.subrange(1, tail.len() as int) =~= tv.subrange(t + 1, tv.len() as int));
        }
        if str_eq(table[t].0.as_str(), name) {
            return Some(&table[t].1);
        }
        t += 1;
    }
    proof {
        assert(tv.subrange(tv.len() as int, tv.len() as int) =~= Seq::<(
            String,
            Vec<String>,
        )>::empty());
    }
    None
}

/// Finds an action's details in the service reference: the action
/// under the bare name after the last colon, together with the
/// templates of each of its resource types that the resource table
/// holds.  Actions the reference does not know yield nothing.
pub fn get_action_details(service_ref: &ServiceReference, action_name: &str) -> (r: Option<
    EnrichedAction,
>)
    ensures
        match r {
            None => action_lookup(service_ref.actions@, action_key_spec(action_name@)) is None,
            Some(ea) => {
                &&& action_lookup(service_ref.actions@, action_key_spec(action_name@))
                    matches Some(a) && ea.action.name@ == a.name@ && views_of_strings(
                    ea.action.resources@,
                ) == views_of_strings(a.resources@) && views_of_strings(ea.action.condition_keys@)
                    == views_of_strings(a.condition_keys@)
                &&& {
                    let details = details_spec(
                        views_of_strings(
                            action_lookup(
                                service_ref.actions@,
                                action_key_spec(action_name@),
                            )->Some_0.resources@,
                        ),
                        service_ref.resources@,
                        0,
                    );
                    if action_lookup(
                        service_ref.actions@,
                        action_key_spec(action_name@),
                    )->Some_0.resources@.len() == 0 || details.len() == 0 {
                        ea.resource_details is None
                    } else {
                        ea.resource_details matches Some(ds) && views_of_resource_infos(ds@)
                            == details && resource_infos_wf(ds@)
                    }
                }
            },
        },
{
    let key = action_key_exec(action_name);
    let ks = crate::text::chars_to_string(&key);
    let action = match action_lookup_exec(&service_ref.actions, ks.as_str()) {
        Some(a) => a,
        None => {
            return None;
        },
    };
    // Build the resource details.
    let ghost names = views_of_strings(action.resources@);
    let ghost table = service_ref.resources@;
    let mut details: Vec<ResourceInfo> = Vec::new();
    let mut m: usize = 0;
    proof {
        assert(views_of_resource_infos(details@) =~= Seq::<ResourceInfoModel>::empty());
        assert(views_of_resource_infos(details@) + details_spec(names, table, 0) =~= details_spec(
            names,
            table,
            0,
        ));
    }
    while m < action.resources.len()
        invariant
            m <= action.resources@.len(),
            names == views_of_strings(action.resources@),
            table == service_ref.resources@,
            resource_infos_wf(details@),
            details_spec(names, table, 0) == views_of_resource_infos(details@) + details_spec(
                names,
                table,
                m as int,
            ),
        decreases action.resources@.len() - m,
    {
        proof {
            assert(names[m as int] == action.resources@[m as int]@);
        }
        let rname = &action.resources[m];
        let templates = resource_templates_exec(&service_ref.resources, rname.as_str());
        match templates {
            Some(ts) => {
                // Scan each template of the type.
                let mut infos: Vec<ArnTemplateInfo> = Vec::new();
                let mut q: usize = 0;
                proof {
                    assert(templates_of_infos(infos@) =~= Seq::<Seq<char>>::empty());
                }
                while q < ts.len()
                    invariant
                        q <= ts@.len(),
                        templates_of_infos(infos@) == views_of_strings(ts@).subrange(
                            0,
                            q as int,
                        ),
                        forall|x: int|
                            0 <= x < infos@.len() ==> views_of_strings(
                                (#[trigger] infos@[x]).arn_variables@,
                            ) == crate::arn::template_vars_spec(infos@[x].arn_template@),
                    decreases ts@.len() - q,
                {
                    let info = ArnTemplateInfo::new(ts[q].clone());
                    let ghost old_infos = infos@;
                    let ghost im = info.arn_template@;
                    infos.push(info);
                    proof {
                        assert(views_of_strings(ts@)[q as int] == ts@[q as int]@);
                        assert(templates_of_infos(infos@) =~= templates_of_infos(
                            old_infos,
                        ).push(im));
                        assert(templates_of_infos(infos@) =~= views_of_strings(ts@).subrange(
                            0,
                            q + 1,
                        ));
                    }
                    q += 1;
                }
                proof {
                    assert(views_of_strings(ts@).subrange(0, ts@.len() as int)
                        =~= views_of_strings(ts@));
                }
                let ghost old_details = details@;
                let ri = ResourceInfo { name: rname.clone(), arn: infos };
                let ghost rim = ri@;
                details.push(ri);
                proof {
                    assert(views_of_resource_infos(details@) =~= views_of_resource_infos(
                        old_details,
                    ).push(rim));
                    assert(views_of_resource_infos(old_details) + (seq![rim] + details_spec(
                        names,
                        table,
                        m + 1,
                    )) =~= views_of_resource_infos(details@) + details_spec(
                        names,
                        table,
                        m + 1,
                    ));
                }
            },
            None => {},
        }
        m += 1;
    }
    proof {
        assert(views_of_resource_infos(details@) + Seq::<ResourceInfoModel>::empty()
            =~= views_of_resource_infos(details@));
    }
    let resource_details: Option<Vec<ResourceInfo>> = if action.resources.len() == 0
        || details.len() == 0 {
        None
    } else {
        Some(details)
    };
    Some(EnrichedAction { action: clone_ref_action(action), resource_details })
}

} // verus!
