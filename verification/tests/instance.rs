use quark::chain::{DispatchChain, FnRef};
use quark::codes::LayerError;
use quark::instance::{
    begin_create_api_layer_instance, complete_create_api_layer_instance, destroy_handle,
    APILayerInstanceData, ApiLayerCreateInfo, InstanceCreateInfo, InstanceHandle, InstanceRecord,
    INSTANCE_TYPE_TAG,
};
use quark::registry::{Handle, HandleRegistry};

struct TestData {
    seen_handle: u64,
    app_name: Vec<u8>,
}

impl APILayerInstanceData for TestData {
    fn create(
        _chain: &DispatchChain,
        info: &InstanceCreateInfo,
        raw_instance: u64,
    ) -> Result<Self, LayerError> {
        Ok(TestData { seen_handle: raw_instance, app_name: info.application_name.clone() })
    }
}

struct FailingData;

impl APILayerInstanceData for FailingData {
    fn create(
        _chain: &DispatchChain,
        _info: &InstanceCreateInfo,
        _raw_instance: u64,
    ) -> Result<Self, LayerError> {
        Err(LayerError::InitializationFailed)
    }
}

fn chain() -> DispatchChain {
    DispatchChain {
        next_get_instance_proc_addr: FnRef(0x11),
        next_create_api_layer_instance: FnRef(0x12),
    }
}

fn info() -> InstanceCreateInfo {
    InstanceCreateInfo {
        application_name: b"demo app".to_vec(),
        enabled_extensions: vec![b"EXT_widgets".to_vec()],
    }
}

#[test]
fn begin_rejects_any_missing_pointer() {
    let ci = info();
    let li = ApiLayerCreateInfo { next_info: Some(chain()) };
    assert_eq!(
        begin_create_api_layer_instance(None, Some(&li), true).unwrap_err(),
        LayerError::ValidationFailure
    );
    assert_eq!(
        begin_create_api_layer_instance(Some(&ci), None, true).unwrap_err(),
        LayerError::ValidationFailure
    );
    assert_eq!(
        begin_create_api_layer_instance(Some(&ci), Some(&li), false).unwrap_err(),
        LayerError::ValidationFailure
    );
    let empty = ApiLayerCreateInfo { next_info: None };
    assert_eq!(
        begin_create_api_layer_instance(Some(&ci), Some(&empty), true).unwrap_err(),
        LayerError::ValidationFailure
    );
    assert_eq!(
        begin_create_api_layer_instance(Some(&ci), Some(&li), true).unwrap(),
        chain()
    );
}

#[test]
fn downstream_failure_propagates_and_leaves_no_entry() {
    let mut reg: HandleRegistry<InstanceRecord<TestData>> = HandleRegistry::new();
    let e = complete_create_api_layer_instance::<TestData>(
        &mut reg,
        info(),
        chain(),
        Err(LayerError::InitializationFailed),
    )
    .unwrap_err();
    assert_eq!(e, LayerError::InitializationFailed);
    assert!(matches!(
        reg.get(0x1000, INSTANCE_TYPE_TAG),
        Err(LayerError::HandleInvalid)
    ));
}

#[test]
fn factory_failure_propagates_and_leaves_no_entry() {
    let mut reg: HandleRegistry<InstanceRecord<FailingData>> = HandleRegistry::new();
    let e = complete_create_api_layer_instance::<FailingData>(&mut reg, info(), chain(), Ok(0x1000))
        .unwrap_err();
    assert_eq!(e, LayerError::InitializationFailed);
    assert!(matches!(
        reg.get(0x1000, INSTANCE_TYPE_TAG),
        Err(LayerError::HandleInvalid)
    ));
}

#[test]
fn successful_create_registers_state_under_downstream_handle() {
    let mut reg: HandleRegistry<InstanceRecord<TestData>> = HandleRegistry::new();
    let h =
        complete_create_api_layer_instance::<TestData>(&mut reg, info(), chain(), Ok(0x1000))
            .unwrap();
    assert_eq!(h, 0x1000);
    let record = reg.get(h, INSTANCE_TYPE_TAG).unwrap();
    assert_eq!(record.extensions, vec![b"EXT_widgets".to_vec()]);
    assert_eq!(record.chain, Some(chain()));
    assert_eq!(record.data.seen_handle, 0x1000);
    assert_eq!(record.data.app_name, b"demo app".to_vec());
}

#[test]
fn destroy_removes_entry_and_second_destroy_fails() {
    let mut reg: HandleRegistry<InstanceRecord<TestData>> = HandleRegistry::new();
    let h = complete_create_api_layer_instance::<TestData>(&mut reg, info(), chain(), Ok(0x2000))
        .unwrap();
    let handle = InstanceHandle::from_raw(h);
    assert!(destroy_handle(&mut reg, handle).is_ok());
    assert!(matches!(
        reg.get(h, INSTANCE_TYPE_TAG),
        Err(LayerError::HandleInvalid)
    ));
    assert_eq!(
        destroy_handle(&mut reg, handle).unwrap_err(),
        LayerError::HandleInvalid
    );
}

#[test]
fn destroy_of_null_handle_fails() {
    let mut reg: HandleRegistry<InstanceRecord<TestData>> = HandleRegistry::new();
    assert_eq!(
        destroy_handle(&mut reg, InstanceHandle::from_raw(0)).unwrap_err(),
        LayerError::HandleInvalid
    );
}
