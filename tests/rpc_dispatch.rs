use web_core::error::Error;
use web_core::params::{into_params, HandlerInput, IntoParams, ParamsForCreate, ParamsIded, ParamsKind, ParamsList};
use web_core::project_rpc::{rpc_router, ProjectRpc};
use web_core::router::{RpcHandlerWrapper, RpcRoute, RpcRouter};

#[derive(Debug, Clone, Copy, PartialEq)]
enum Op {
    CreateX,
    ListX,
    Other,
}

fn router() -> RpcRouter<Op> {
    RpcRouter::new()
        .add("create_x", RpcHandlerWrapper::new(Op::CreateX, ParamsKind::Required))
        .add("list_x", RpcHandlerWrapper::new(Op::ListX, ParamsKind::Defaultable))
}

#[test]
fn dispatch_picks_the_named_handler() {
    let r = router();
    match r.call("create_x", Some(5)) {
        Ok((h, input)) => {
            assert_eq!(*h, Op::CreateX);
            assert_eq!(input, HandlerInput::Decode(5));
        }
        Err(e) => panic!("unexpected {e:?}"),
    }
    match r.call("list_x", Some(1)) {
        Ok((h, _)) => assert_eq!(*h, Op::ListX),
        Err(e) => panic!("unexpected {e:?}"),
    }
}

#[test]
fn dispatch_unknown_method() {
    let r = router();
    match r.call("unknown", Some(5)) {
        Err(Error::RpcMethodUnknown(m)) => assert_eq!(m, "unknown"),
        _ => panic!("expected RpcMethodUnknown"),
    }
    assert!(matches!(r.call::<i32>("create_", None), Err(Error::RpcMethodUnknown(_))));
    assert!(matches!(RpcRouter::<Op>::new().call("create_x", Some(1)), Err(Error::RpcMethodUnknown(_))));
}

#[test]
fn required_params_missing() {
    let r = router();
    assert!(matches!(r.call::<i32>("create_x", None), Err(Error::RpcIntoParamsMissing)));
}

#[test]
fn defaultable_params_absent_gives_default() {
    let r = router();
    match r.call::<i32>("list_x", None) {
        Ok((h, input)) => {
            assert_eq!(*h, Op::ListX);
            assert_eq!(input, HandlerInput::Default);
        }
        Err(e) => panic!("unexpected {e:?}"),
    }
}

#[test]
fn no_params_handler_ignores_payload() {
    let r = RpcRouter::new().add("ping", RpcHandlerWrapper::new(Op::Other, ParamsKind::NoParams));
    assert!(matches!(r.call("ping", Some(3)), Ok((Op::Other, HandlerInput::NoParams))));
    assert!(matches!(r.call::<i32>("ping", None), Ok((Op::Other, HandlerInput::NoParams))));
}

#[test]
fn into_params_policies() {
    assert_eq!(into_params(ParamsKind::Required, Some(1)), Ok(HandlerInput::Decode(1)));
    assert!(matches!(into_params::<i32>(ParamsKind::Required, None), Err(Error::RpcIntoParamsMissing)));
    assert_eq!(into_params::<i32>(ParamsKind::Defaultable, None), Ok(HandlerInput::Default));
    assert_eq!(into_params(ParamsKind::Defaultable, Some(2)), Ok(HandlerInput::Decode(2)));
    assert_eq!(into_params(ParamsKind::NoParams, Some(2)), Ok(HandlerInput::NoParams));
    assert_eq!(ParamsForCreate::<i32>::params_kind(), ParamsKind::Required);
    assert_eq!(ParamsIded::params_kind(), ParamsKind::Required);
    assert_eq!(ParamsList::<i32>::params_kind(), ParamsKind::Defaultable);
    assert!(ParamsList::<i32>::default().filter.is_none());
}

#[test]
fn add_replaces_and_extend_prefers_other() {
    let r = router().add("create_x", RpcHandlerWrapper::new(Op::Other, ParamsKind::NoParams));
    assert!(matches!(r.call("create_x", Some(1)), Ok((Op::Other, HandlerInput::NoParams))));
    let merged = router().extend(
        RpcRouter::new()
            .add("list_x", RpcHandlerWrapper::new(Op::Other, ParamsKind::Required))
            .add("more_x", RpcHandlerWrapper::new(Op::CreateX, ParamsKind::Required)),
    );
    assert!(matches!(merged.call("list_x", Some(1)), Ok((Op::Other, _))));
    assert!(matches!(merged.call("more_x", Some(1)), Ok((Op::CreateX, _))));
    assert!(matches!(merged.call("create_x", Some(1)), Ok((Op::CreateX, _))));
}

#[test]
fn route_matches_exact_name() {
    let route = RpcRoute::new(RpcHandlerWrapper::new(Op::CreateX, ParamsKind::Required), "create_x");
    assert!(route.is_route_for("create_x"));
    assert!(!route.is_route_for("create_X"));
    assert!(!route.is_route_for("create_x "));
    let wrapper = RpcHandlerWrapper::new(Op::ListX, ParamsKind::Defaultable);
    assert!(matches!(wrapper.call::<u8>(None), Ok((Op::ListX, HandlerInput::Default))));
}

#[test]
fn project_router_registrations() {
    let r = rpc_router();
    assert!(matches!(r.call("create_project", Some(1)), Ok((ProjectRpc::CreateProject, HandlerInput::Decode(1)))));
    assert!(matches!(r.call::<i32>("list_projects", None), Ok((ProjectRpc::ListProjects, HandlerInput::Default))));
    assert!(matches!(r.call::<i32>("update_project", None), Err(Error::RpcIntoParamsMissing)));
    assert!(matches!(r.call("delete_project", Some(1)), Ok((ProjectRpc::DeleteProject, _))));
    assert!(matches!(r.call("get_project", Some(1)), Err(Error::RpcMethodUnknown(_))));
}

#[test]
fn append_keeps_existing_handlers() {
    let merged = router().append(
        RpcRouter::new()
            .add("list_x", RpcHandlerWrapper::new(Op::Other, ParamsKind::Required))
            .add("more_x", RpcHandlerWrapper::new(Op::Other, ParamsKind::Required)),
    );
    assert!(matches!(merged.call("list_x", Some(1)), Ok((Op::ListX, _))));
    assert!(matches!(merged.call("more_x", Some(1)), Ok((Op::Other, _))));
    assert!(merged.has_route("create_x"));
    assert!(!merged.has_route("unknown"));
}

#[test]
fn registration_follows_declared_policy() {
    let w = RpcHandlerWrapper::for_params::<ParamsList<i32>>(Op::ListX);
    assert_eq!(w.kind, ParamsKind::Defaultable);
    let w = RpcHandlerWrapper::for_params::<ParamsIded>(Op::CreateX);
    assert_eq!(w.kind, ParamsKind::Required);
    let w = RpcHandlerWrapper::without_params(Op::Other);
    assert_eq!(w.kind, ParamsKind::NoParams);
}
