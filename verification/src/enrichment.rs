//! The records that the enrichment stage produces: IAM actions with
//! their resources and ARN templates, tied back to the SDK call they
//! came from.

use vstd::prelude::*;
use vstd::string::StringExecFns;
use crate::arguments::views_of_strings;
use crate::arn::assoc_lookup;
use crate::catalog::{
    AuthorizedAction, RefAction, ServiceReference, ServiceReferenceOperation, action_lookup,
    resource_templates_lookup,
};
use crate::config::ServiceConfiguration;
use crate::text::{str_eq, str_to_chars};

verus! {

/// A canonical SDK method call, as extraction reports it.
#[derive(Debug, Clone)]
pub struct SdkMethodCall {
    /// The method name, as written at the call site.
    pub name: String,
    /// Candidate service identifiers, in order, when the binding is
    /// ambiguous.
    pub possible_services: Vec<String>,
    /// Free-form metadata carried along from extraction.
    pub metadata: Option<String>,
}

/// Mathematical model of an `SdkMethodCall`.
pub struct SdkMethodCallModel {
    pub name: Seq<char>,
    pub possible_services: Seq<Seq<char>>,
    pub metadata: Option<Seq<char>>,
}

impl View for SdkMethodCall {
    type V = SdkMethodCallModel;

    open spec fn view(&self) -> SdkMethodCallModel {
        SdkMethodCallModel {
            name: self.name@,
            possible_services: views_of_strings(self.possible_services@),
            metadata: match &self.metadata {
                Some(m) => Some(m@),
                None => None,
            },
        }
    }
}

/// The trail of table entries that fired while a call was enriched.
#[derive(Debug, Clone)]
pub struct Explanation {
    /// One note per table entry that fired.
    pub notes: Vec<String>,
}

impl Default for Explanation {
    /// An empty trail.
    fn default() -> (r: Explanation)
        ensures
            r.notes@.len() == 0,
    {
        Explanation { notes: Vec::new() }
    }
}

/// A resource of an action: a resource-type name, `*` when no specific
/// type applies, with the ARN templates of that type when there are
/// any.
#[derive(Debug, Clone)]
pub struct Resource {
    /// The resource-type name.
    pub resource_type_name: String,
    /// The ARN templates of the type, in catalog order.
    pub arn_templates: Option<Vec<String>>,
}

/// Mathematical model of a `Resource`.
pub struct ResourceModel {
    pub resource_type_name: Seq<char>,
    pub arn_templates: Option<Seq<Seq<char>>>,
}

impl View for Resource {
    type V = ResourceModel;

    open spec fn view(&self) -> ResourceModel {
        ResourceModel {
            resource_type_name: self.resource_type_name@,
            arn_templates: match &self.arn_templates {
                Some(ts) => Some(views_of_strings(ts@)),
                None => None,
            },
        }
    }
}

impl Resource {
    /// A resource from its type name and templates.
    pub fn new(resource_type_name: String, arn_templates: Option<Vec<String>>) -> (r: Resource)
        ensures
            r.resource_type_name@ == resource_type_name@,
            match arn_templates {
                Some(ts) => r@.arn_templates == Some(views_of_strings(ts@)),
                None => r@.arn_templates is None,
            },
    {
        Resource { resource_type_name, arn_templates }
    }
}

/// An IAM action that a call requires, with its resources and
/// conditions.
#[derive(Debug, Clone)]
pub struct Action {
    /// The action name, `service:OperationName`.
    pub name: String,
    /// The resources of the action.
    pub resources: Vec<Resource>,
    /// Condition keys attached to the action.
    pub conditions: Vec<String>,
    /// Why this action was chosen.
    pub explanation: Explanation,
}

/// Mathematical model of an `Action`.
pub struct ActionModel {
    pub name: Seq<char>,
    pub resources: Seq<ResourceModel>,
    pub conditions: Seq<Seq<char>>,
}

/// The views of a resource list.
pub open spec fn views_of_resources(v: Seq<Resource>) -> Seq<ResourceModel> {
    v.map_values(|r: Resource| r@)
}

impl View for Action {
    type V = ActionModel;

    open spec fn view(&self) -> ActionModel {
        ActionModel {
            name: self.name@,
            resources: views_of_resources(self.resources@),
            conditions: views_of_strings(self.conditions@),
        }
    }
}

impl Action {
    /// An action from its parts.
    pub fn new(
        name: String,
        resources: Vec<Resource>,
        conditions: Vec<String>,
        explanation: Explanation,
    ) -> (r: Action)
        ensures
            r@.name == name@,
            r@.resources == views_of_resources(resources@),
            r@.conditions == views_of_strings(conditions@),
    {
        Action { name, resources, conditions, explanation }
    }
}

/// An SDK method call resolved to the IAM actions it requires.
#[derive(Debug, Clone)]
pub struct EnrichedSdkMethodCall<'a> {
    /// The resolved method name.
    pub method_name: String,
    /// The service the call was resolved against.
    pub service: String,
    /// The actions the call requires.
    pub actions: Vec<Action>,
    /// The call this enrichment came from.
    pub sdk_method_call: &'a SdkMethodCall,
}

/// Mathematical model of an `EnrichedSdkMethodCall`.
pub struct EnrichedCallModel {
    pub method_name: Seq<char>,
    pub service: Seq<char>,
    pub actions: Seq<ActionModel>,
}

/// The views of an action list.
pub open spec fn views_of_actions(v: Seq<Action>) -> Seq<ActionModel> {
    v.map_values(|a: Action| a@)
}

impl<'a> View for EnrichedSdkMethodCall<'a> {
    type V = EnrichedCallModel;

    open spec fn view(&self) -> EnrichedCallModel {
        EnrichedCallModel {
            method_name: self.method_name@,
            service: self.service@,
            actions: views_of_actions(self.actions@),
        }
    }
}

/// First service reference bound to `name` in the catalog.
pub open spec fn sref_lookup(
    catalog: Seq<(String, ServiceReference)>,
    name: Seq<char>,
) -> Option<ServiceReference>
    decreases catalog.len(),
{
    if catalog.len() == 0 {
        None
    } else if catalog[0].0@ == name {
        Some(catalog[0].1)
    } else {
        sref_lookup(catalog.subrange(1, catalog.len() as int), name)
    }
}

/// The surface names of an operation's SDK methods.
pub open spec fn sdk_names(v: Seq<crate::catalog::SdkMethod>) -> Seq<Seq<char>> {
    v.map_values(|m: crate::catalog::SdkMethod| m.name@)
}

/// First operation matching the call: its key is the canonical
/// operation name, or one of its SDK methods carries the call's
/// surface name.
pub open spec fn op_lookup(
    ops: Seq<(String, ServiceReferenceOperation)>,
    op_name: Seq<char>,
    sdk_name: Seq<char>,
) -> Option<ServiceReferenceOperation>
    decreases ops.len(),
{
    if ops.len() == 0 {
        None
    } else if ops[0].0@ == op_name || sdk_names(ops[0].1.sdk@).contains(sdk_name) {
        Some(ops[0].1)
    } else {
        op_lookup(ops.subrange(1, ops.len() as int), op_name, sdk_name)
    }
}

/// The resource of one resource-type name: its templates when the
/// table knows the type, a bare resource otherwise.
pub open spec fn resource_for_name(
    table: Seq<(String, Vec<String>)>,
    name: Seq<char>,
) -> ResourceModel {
    match resource_templates_lookup(table, name) {
        Some(ts) => ResourceModel { resource_type_name: name, arn_templates: Some(ts) },
        None => ResourceModel { resource_type_name: name, arn_templates: None },
    }
}

/// The resources of an action's resource-type names from index `k` on.
pub open spec fn resources_for_action(
    names: Seq<Seq<char>>,
    table: Seq<(String, Vec<String>)>,
    k: int,
) -> Seq<ResourceModel>
    decreases names.len() - k when 0 <= k <= names.len()
{
    if k >= names.len() {
        Seq::empty()
    } else {
        seq![resource_for_name(table, names[k])] + resources_for_action(names, table, k + 1)
    }
}

/// The action of one authorized action: its full `service:Name`, with
/// the resources and condition keys of the reference's action entry
/// when there is one.
pub open spec fn action_for_authorized(aa: AuthorizedAction, sref: ServiceReference) -> ActionModel {
    let full = aa.service@ + ":"@ + aa.name@;
    match action_lookup(sref.actions@, aa.name@) {
        Some(ra) => ActionModel {
            name: full,
            resources: resources_for_action(
                views_of_strings(ra.resources@),
                sref.resources@,
                0,
            ),
            conditions: views_of_strings(ra.condition_keys@),
        },
        None => ActionModel { name: full, resources: Seq::empty(), conditions: Seq::empty() },
    }
}

/// The actions of an operation's authorized actions from index `k` on.
pub open spec fn actions_for_op(
    aas: Seq<AuthorizedAction>,
    sref: ServiceReference,
    k: int,
) -> Seq<ActionModel>
    decreases aas.len() - k when 0 <= k <= aas.len()
{
    if k >= aas.len() {
        Seq::empty()
    } else {
        seq![action_for_authorized(aas[k], sref)] + actions_for_op(aas, sref, k + 1)
    }
}

/// The enrichment of one call against every candidate service from
/// index `k` on: a candidate is renamed, looked up in the catalog, and
/// kept when the catalog confirms the operation under it.
pub open spec fn enrich_spec(
    call: SdkMethodCall,
    catalog: Seq<(String, ServiceReference)>,
    config: ServiceConfiguration,
    k: int,
) -> Seq<EnrichedCallModel>
    decreases call.possible_services@.len() - k when 0 <= k <= call.possible_services@.len()
{
    if k >= call.possible_services@.len() {
        Seq::empty()
    } else {
        let rest = enrich_spec(call, catalog, config, k + 1);
        let renamed = crate::config::rename_spec(
            crate::arn::pairs_view(config.rename_services_service_reference@),
            call.possible_services@[k]@,
        );
        match sref_lookup(catalog, renamed) {
            None => rest,
            Some(sref) => {
                let op_name = match assoc_lookup(
                    crate::config::rename_ops_view(config.rename_operations@),
                    renamed + ":"@ + call.name@,
                ) {
                    Some(v) => v,
                    None => call.name@,
                };
                match sref.operation_to_authorized_actions {
                    None => rest,
                    Some(ops) => match op_lookup(ops@, op_name, call.name@) {
                        None => rest,
                        Some(op) => seq![
                            EnrichedCallModel {
                                method_name: call.name@,
                                service: renamed,
                                actions: actions_for_op(op.authorized_actions@, sref, 0),
                            },
                        ] + rest,
                    },
                }
            },
        }
    }
}

/// Looks a service reference up in the catalog.
fn sref_lookup_exec<'a>(catalog: &'a Vec<(String, ServiceReference)>, name: &str) -> (r: Option<
    &'a ServiceReference,
>)
    ensures
        match r {
            Some(s) => sref_lookup(catalog@, name@) == Some(*s),
            None => sref_lookup(catalog@, name@) is None,
        },
{
    let ghost cv = catalog@;
    let mut k: usize = 0;
    proof {
        assert(cv.subrange(0, cv.len() as int) =~= cv);
    }
    while k < catalog.len()
        invariant
            k <= catalog@.len(),
            cv == catalog@,
            sref_lookup(cv, name@) == sref_lookup(cv.subrange(k as int, cv.len() as int), name@),
        decreases catalog@.len() - k,
    {
        proof {
            let tail = cv.subrange(k as int, cv.len() as int);
            assert(tail[0] == cv[k as int]);
            assert(tail.subrange(1, tail.len() as int) =~= cv.subrange(k + 1, cv.len() as int));
        }
        if str_eq(catalog[k].0.as_str(), name) {
            return Some(&catalog[k].1);
        }
        k += 1;
    }
    proof {
        assert(cv.subrange(cv.len() as int, cv.len() as int) =~= Seq::<(
            String,
            ServiceReference,
        )>::empty());
    }
    None
}

/// Whether one of the SDK methods carries this surface name.
fn sdk_contains(v: &Vec<crate::catalog::SdkMethod>, name: &str) -> (r: bool)
    ensures
        r == sdk_names(v@).contains(name@),
{
    let mut k: usize = 0;
    while k < v.len()
        invariant
            k <= v@.len(),
            forall|m: int| 0 <= m < k ==> sdk_names(v@)[m] != name@,
        decreases v@.len() - k,
    {
        proof {
            assert(sdk_names(v@)[k as int] == v@[k as int].name@);
        }
        if str_eq(v[k].name.as_str(), name) {
            return true;
        }
        k += 1;
    }
    proof {
        if sdk_names(v@).contains(name@) {
            let w = choose|i: int| 0 <= i < sdk_names(v@).len() && sdk_names(v@)[i] == name@;
            assert(false);
        }
    }
    false
}

/// Finds the operation the call resolves to.
fn op_lookup_exec<'a>(
    ops: &'a Vec<(String, ServiceReferenceOperation)>,
    op_name: &str,
    sdk_name: &str,
) -> (r: Option<&'a ServiceReferenceOperation>)
    ensures
        match r {
            Some(o) => op_lookup(ops@, op_name@, sdk_name@) == Some(*o),
            None => op_lookup(ops@, op_name@, sdk_name@) is None,
        },
{
    let ghost ov = ops@;
    let mut k: usize = 0;
    proof {
        assert(ov.subrange(0, ov.len() as int) =~= ov);
    }
    while k < ops.len()
        invariant
            k <= ops@.len(),
            ov == ops@,
            op_lookup(ov, op_name@, sdk_name@) == op_lookup(
                ov.subrange(k as int, ov.len() as int),
                op_name@,
                sdk_name@,
            ),
        decreases ops@.len() - k,
    {
        proof {
            let tail = ov.subrange(k as int, ov.len() as int);
            assert(tail[0] == ov[k as int]);
            assert(tail.subrange(1, tail.len() as int) =~= ov.subrange(k + 1, ov.len() as int));
        }
        if str_eq(ops[k].0.as_str(), op_name) || sdk_contains(&ops[k].1.sdk, sdk_name) {
            return Some(&ops[k].1);
        }
        k += 1;
    }
    proof {
        assert(ov.subrange(ov.len() as int, ov.len() as int) =~= Seq::<(
            String,
            ServiceReferenceOperation,
        )>::empty());
    }
    None
}

/// Builds the resources of one action entry.
fn build_resources(names: &Vec<String>, sref: &ServiceReference) -> (r: Vec<Resource>)
    ensures
        views_of_resources(r@) == resources_for_action(
            views_of_strings(names@),
            sref.resources@,
            0,
        ),
{
    let ghost nv = views_of_strings(names@);
    let ghost table = sref.resources@;
    let mut out: Vec<Resource> = Vec::new();
    let mut k: usize = 0;
    proof {
        assert(views_of_resources(out@) =~= Seq::<ResourceModel>::empty());
        assert(views_of_resources(out@) + resources_for_action(nv, table, 0)
            =~= resources_for_action(nv, table, 0));
    }
    while k < names.len()
        invariant
            k <= names@.len(),
            nv == views_of_strings(names@),
            table == sref.resources@,
            resources_for_action(nv, table, 0) == views_of_resources(out@)
                + resources_for_action(nv, table, k as int),
        decreases names@.len() - k,
    {
        proof {
            assert(nv[k as int] == names@[k as int]@);
        }
        let templates: Option<Vec<String>> = match crate::catalog::resource_templates_exec(
            &sref.resources,
            names[k].as_str(),
        ) {
            Some(ts) => Some(crate::policy::clone_string_vec(ts)),
            None => None,
        };
        let res = Resource { resource_type_name: names[k].clone(), arn_templates: templates };
        let ghost rm = res@;
        let ghost old_out = out@;
        out.push(res);
        proof {
            assert(views_of_resources(out@) =~= views_of_resources(old_out).push(rm));
            assert(views_of_resources(old_out) + (seq![rm] + resources_for_action(
                nv,
                table,
                k + 1,
            )) =~= views_of_resources(out@) + resources_for_action(nv, table, k + 1));
        }
        k += 1;
    }
    proof {
        assert(views_of_resources(out@) + Seq::<ResourceModel>::empty() =~= views_of_resources(
            out@,
        ));
    }
    out
}

/// Builds the actions of an operation's authorized actions.
fn build_actions(aas: &Vec<AuthorizedAction>, sref: &ServiceReference) -> (r: Vec<Action>)
    ensures
        views_of_actions(r@) == actions_for_op(aas@, *sref, 0),
{
    let ghost av = aas@;
    let mut out: Vec<Action> = Vec::new();
    let mut k: usize = 0;
    proof {
        assert(views_of_actions(out@) =~= Seq::<ActionModel>::empty());
        assert(views_of_actions(out@) + actions_for_op(av, *sref, 0) =~= actions_for_op(
            av,
            *sref,
            0,
        ));
    }
    while k < aas.len()
        invariant
            k <= aas@.len(),
            av == aas@,
            actions_for_op(av, *sref, 0) == views_of_actions(out@) + actions_for_op(
                av,
                *sref,
                k as int,
            ),
        decreases aas@.len() - k,
    {
        let mut full = aas[k].service.clone();
        full.append(":");
        full.append(aas[k].name.as_str());
        let action = match crate::catalog::action_lookup_exec(
            &sref.actions,
            aas[k].name.as_str(),
        ) {
            Some(ra) => {
                let resources = build_resources(&ra.resources, sref);
                Action {
                    name: full,
                    resources,
                    conditions: crate::policy::clone_string_vec(&ra.condition_keys),
                    explanation: Explanation { notes: Vec::new() },
                }
            },
            None => Action {
                name: full,
                resources: Vec::new(),
                conditions: Vec::new(),
                explanation: Explanation { notes: Vec::new() },
            },
        };
        let ghost am = action@;
        let ghost old_out = out@;
        proof {
            assert(views_of_resources(Seq::<Resource>::empty()) =~= Seq::<
                ResourceModel,
            >::empty());
            assert(views_of_strings(Seq::<String>::empty()) =~= Seq::<Seq<char>>::empty());
        }
        out.push(action);
        proof {
            assert(views_of_actions(out@) =~= views_of_actions(old_out).push(am));
            assert(views_of_actions(old_out) + (seq![am] + actions_for_op(av, *sref, k + 1))
                =~= views_of_actions(out@) + actions_for_op(av, *sref, k + 1));
        }
        k += 1;
    }
    proof {
        assert(views_of_actions(out@) + Seq::<ActionModel>::empty() =~= views_of_actions(out@));
    }
    out
}

/// Resolves one call against every candidate service: each candidate
/// is renamed through the configuration, looked up in the catalog, and
/// an enrichment is emitted for every candidate whose reference
/// confirms the operation, either under its canonical name or under
/// one of its SDK method names.
pub fn enrich_method_call<'a>(
    call: &'a SdkMethodCall,
    catalog: &Vec<(String, ServiceReference)>,
    config: &ServiceConfiguration,
) -> (r: Vec<EnrichedSdkMethodCall<'a>>)
    ensures
        crate::policy::views_of_calls(r@) == enrich_spec(*call, catalog@, *config, 0),
{
    let ghost cv = catalog@;
    let mut out: Vec<EnrichedSdkMethodCall<'a>> = Vec::new();
    let mut k: usize = 0;
    proof {
        assert(crate::policy::views_of_calls(out@) =~= Seq::<EnrichedCallModel>::empty());
        assert(crate::policy::views_of_calls(out@) + enrich_spec(*call, cv, *config, 0)
            =~= enrich_spec(*call, cv, *config, 0));
    }
    while k < call.possible_services.len()
        invariant
            k <= call.possible_services@.len(),
            cv == catalog@,
            enrich_spec(*call, cv, *config, 0) == crate::policy::views_of_calls(out@)
                + enrich_spec(*call, cv, *config, k as int),
        decreases call.possible_services@.len() - k,
    {
        let renamed = config.rename_service_service_reference(
            call.possible_services[k].as_str(),
        );
        match sref_lookup_exec(catalog, renamed.as_str()) {
            None => {},
            Some(sref) => {
                let op_name = config.rename_operation(renamed.as_str(), call.name.as_str());
                match &sref.operation_to_authorized_actions {
                    None => {},
                    Some(ops) => {
                        match op_lookup_exec(ops, op_name.as_str(), call.name.as_str()) {
                            None => {},
                            Some(op) => {
                                let actions = build_actions(&op.authorized_actions, sref);
                                let enriched = EnrichedSdkMethodCall {
                                    method_name: call.name.clone(),
                                    service: renamed,
                                    actions,
                                    sdk_method_call: call,
                                };
                                let ghost em = enriched@;
                                let ghost old_out = out@;
                                out.push(enriched);
                                proof {
                                    assert(crate::policy::views_of_calls(out@)
                                        =~= crate::policy::views_of_calls(old_out).push(em));
                                    assert(crate::policy::views_of_calls(old_out) + (seq![em]
                                        + enrich_spec(*call, cv, *config, k + 1))
                                        =~= crate::policy::views_of_calls(out@) + enrich_spec(
                                        *call,
                                        cv,
                                        *config,
                                        k + 1,
                                    ));
                                }
                            },
                        }
                    },
                }
            },
        }
        k += 1;
    }
    proof {
        assert(crate::policy::views_of_calls(out@) + Seq::<EnrichedCallModel>::empty()
            =~= crate::policy::views_of_calls(out@));
    }
    out
}

} // verus!
