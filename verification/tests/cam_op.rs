use intelligent_sight::cam_op::{
    check_status, err_name, needs_shutdown, CameraAction, CameraError, FlipFlag, ERR_NAME,
    STATUS_OK, UNKNOWN_ERR_NAME,
};

#[test]
fn flip_flags_have_the_codes_of_the_sdk() {
    assert_eq!(FlipFlag::Neither.code(), 0);
    assert_eq!(FlipFlag::Vertical.code(), 1);
    assert_eq!(FlipFlag::Horizontal.code(), 2);
    assert_eq!(FlipFlag::Both.code(), 3);
}

#[test]
fn table_has_a_name_for_each_known_status() {
    assert_eq!(ERR_NAME.len(), 62);
    assert_eq!(err_name(0), "操作成功");
    assert_eq!(err_name(1), "操作失败");
    assert_eq!(err_name(12), "超时错误");
    assert_eq!(err_name(53), "无效的设备名，名字里不能包含以下字符(\\/:*?\"<>|\")");
    assert_eq!(err_name(61), "相机输出图片大小错误");
    for code in 0..62u8 {
        assert_eq!(err_name(code), ERR_NAME[code as usize]);
    }
}

#[test]
fn status_outside_the_table_is_unknown() {
    assert_eq!(UNKNOWN_ERR_NAME, "err code unknown");
    assert_eq!(err_name(62), "err code unknown");
    assert_eq!(err_name(200), "err code unknown");
    assert_eq!(err_name(255), "err code unknown");
}

#[test]
fn status_zero_is_success() {
    assert_eq!(STATUS_OK, 0);
    assert!(check_status(CameraAction::Initialize, 0).is_ok());
    assert!(check_status(CameraAction::GetImage, 0).is_ok());
    assert!(check_status(CameraAction::Uninitialize, 0).is_ok());
}

#[test]
fn other_status_is_a_failure_with_code_and_name() {
    let error = check_status(CameraAction::Initialize, 16).unwrap_err();
    assert_eq!(error.action, CameraAction::Initialize);
    assert_eq!(error.code, 16);
    assert_eq!(error.name, "没有发现设备");
    let unknown = check_status(CameraAction::GetImage, 99).unwrap_err();
    assert_eq!(unknown.action, CameraAction::GetImage);
    assert_eq!(unknown.code, 99);
    assert_eq!(unknown.name, "err code unknown");
}

#[test]
fn actions_are_described_in_words() {
    assert_eq!(CameraAction::Initialize.describe(), "initialize camera");
    assert_eq!(CameraAction::GetImage.describe(), "get image");
    assert_eq!(CameraAction::Uninitialize.describe(), "uninitialize camera");
}

#[test]
fn message_names_the_call_the_status_and_its_name() {
    assert_eq!(
        check_status(CameraAction::Initialize, 16).unwrap_err().message(),
        "Failed to initialize camera, err code: 16 (没有发现设备)"
    );
    assert_eq!(
        check_status(CameraAction::GetImage, 5).unwrap_err().message(),
        "Failed to get image, err code: 5 (初始化未完成)"
    );
    assert_eq!(
        check_status(CameraAction::Uninitialize, 200).unwrap_err().message(),
        "Failed to uninitialize camera, err code: 200 (err code unknown)"
    );
}

#[test]
fn message_writes_the_status_in_decimal() {
    for code in 1..=255u8 {
        let error = CameraError { action: CameraAction::GetImage, code, name: "x" };
        assert_eq!(
            error.message(),
            format!("Failed to get image, err code: {} (x)", code)
        );
    }
    let zero = CameraError { action: CameraAction::GetImage, code: 0, name: "" };
    assert_eq!(zero.message(), "Failed to get image, err code: 0 ()");
}

#[test]
fn shutdown_follows_only_a_failure_after_the_sdk_came_up() {
    assert!(needs_shutdown(3, 1));
    assert!(needs_shutdown(3, 255));
    assert!(!needs_shutdown(3, 0));
    assert!(!needs_shutdown(0, 1));
    assert!(!needs_shutdown(0, 0));
}
