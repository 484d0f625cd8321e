//! The RPC methods on projects and their registration.
use vstd::prelude::*;
use crate::model::{ProjectFilter, ProjectForCreate, ProjectForUpdate};
use crate::params::{ParamsForCreate, ParamsForUpdate, ParamsIded, ParamsKind, ParamsList};
use crate::router::{RpcHandlerWrapper, RpcRouter};

verus! {

/// The project operations that the RPC surface offers.
#[derive(Debug, Clone, Copy, PartialEq, Eq, Structural)]
pub enum ProjectRpc {
    CreateProject,
    ListProjects,
    UpdateProject,
    DeleteProject,
}

/// The method names and their registrations.
pub open spec fn project_routes() -> Map<Seq<char>, RpcHandlerWrapper<ProjectRpc>> {
    Map::empty().insert(
        "create_project"@,
        RpcHandlerWrapper { handler: ProjectRpc::CreateProject, kind: ParamsKind::Required },
    ).insert(
        "list_projects"@,
        RpcHandlerWrapper { handler: ProjectRpc::ListProjects, kind: ParamsKind::Defaultable },
    ).insert(
        "update_project"@,
        RpcHandlerWrapper { handler: ProjectRpc::UpdateProject, kind: ParamsKind::Required },
    ).insert(
        "delete_project"@,
        RpcHandlerWrapper { handler: ProjectRpc::DeleteProject, kind: ParamsKind::Required },
    )
}

/// The router of the project methods, each under its own name and with the
/// policy of its parameter type: listing takes default parameters, the others
/// require them.
pub fn rpc_router() -> (r: RpcRouter<ProjectRpc>)
    ensures
        r.wf(),
        r.view() == project_routes(),
{
    RpcRouter::new().add(
        "create_project",
        RpcHandlerWrapper::for_params::<ParamsForCreate<ProjectForCreate>>(ProjectRpc::CreateProject),
    ).add(
        "list_projects",
        RpcHandlerWrapper::for_params::<ParamsList<ProjectFilter>>(ProjectRpc::ListProjects),
    ).add(
        "update_project",
        RpcHandlerWrapper::for_params::<ParamsForUpdate<ProjectForUpdate>>(ProjectRpc::UpdateProject),
    ).add("delete_project", RpcHandlerWrapper::for_params::<ParamsIded>(ProjectRpc::DeleteProject))
}

} // verus!
