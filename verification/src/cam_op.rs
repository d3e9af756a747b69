//! The camera boundary: the values that go into the vendor SDK's calls and
//! the rules by which its answers are read. The calls themselves are made
//! elsewhere.
use vstd::prelude::*;
use vstd::string::StringExecFns;

verus! {

/// How the SDK mirrors an image while it copies it out.
#[derive(Clone, Copy, Debug, PartialEq, Eq, Structural)]
pub enum FlipFlag {
    Neither,
    Vertical,
    Horizontal,
    Both,
}

impl FlipFlag {
    /// The number by which the SDK knows the flag.
    pub open spec fn spec_code(self) -> u8 {
        match self {
            FlipFlag::Neither => 0,
            FlipFlag::Vertical => 1,
            FlipFlag::Horizontal => 2,
            FlipFlag::Both => 3,
        }
    }

    /// The number by which the SDK knows the flag.
    pub fn code(self) -> (code: u8)
        ensures
            code == self.spec_code(),
    {
        match self {
            FlipFlag::Neither => 0,
            FlipFlag::Vertical => 1,
            FlipFlag::Horizontal => 2,
            FlipFlag::Both => 3,
        }
    }
}

/// The status with which every call into the SDK reports success.
pub const STATUS_OK: u8 = 0;

/// The names of the SDK's status codes, by code.
pub const ERR_NAME: [&'static str; 62] = [
    "操作成功",
    "操作失败",
    "内部错误",
    "未知错误",
    "不支持该功能",
    "初始化未完成",
    "参数无效",
    "参数越界",
    "未使能",
    "用户手动取消了，比如roi面板点击取消，返回",
    "注册表中没有找到对应的路径",
    "获得图像数据长度和定义的尺寸不匹配",
    "超时错误",
    "硬件IO错误",
    "通讯错误",
    "总线错误",
    "没有发现设备",
    "未找到逻辑设备",
    "设备已经打开",
    "设备已经关闭",
    "没有打开设备视频，调用录像相关的函数时，如果相机视频没有打开，则回返回该错误。",
    "没有足够系统内存",
    "创建文件失败",
    "文件格式无效",
    "写保护，不可写",
    "数据采集失败",
    "数据丢失，不完整",
    "未接收到帧结束符",
    "正忙(上一次操作还在进行中)，此次操作不能进行",
    "需要等待(进行操作的条件不成立)，可以再次尝试trf",
    "正在进行，已经被操作过",
    "IIC传输错误",
    "SPI传输错误",
    "USB控制传输错误",
    "USBBULK传输错误",
    "网络传输套件初始化失败",
    "网络相机内核过滤驱动初始化失败，请检查是否正确安装了驱动，或者重新安装。",
    "网络数据发送错误",
    "与网络相机失去连接，心跳检测超时",
    "接收到的字节数比请求的少",
    "从文件中加载程序失败",
    "程序运行所必须的文件丢失。",
    "固件和程序不匹配，原因是下载了错误的固件。",
    "参数超出有效范围。",
    "安装程序注册错误。请重新安装程序，或者运行安装目录Setup/Installer.exe",
    "禁止访问。指定相机已经被其他程序占用时，再申请访问该相机，会返回该状态。(一个相机不能被多个程序同时访问)",
    "表示相机需要复位后才能正常使用，此时请让相机断电重启，或者重启操作系统后，便可正常使用。",
    "ISP模块未初始化",
    "数据校验错误",
    "数据测试失败",
    "内部错误1",
    "U3V控制端点未找到",
    "U3V控制通讯错误",
    "无效的设备名，名字里不能包含以下字符(\\/:*?\"<>|\")",
    "格式错误",
    "PCIE设备打开失败",
    "PCIE设备通讯失败",
    "PCIEDDR错误",
    "指定相机不存在",
    "找到的相机数量少于指定值",
    "相机输出图片格式错误",
    "相机输出图片大小错误",
];

/// The name given to a status code that the table does not hold.
pub const UNKNOWN_ERR_NAME: &'static str = "err code unknown";

/// The calls into the SDK.
#[derive(Clone, Copy, Debug, PartialEq, Eq, Structural)]
pub enum CameraAction {
    Initialize,
    GetImage,
    Uninitialize,
}

impl CameraAction {
    /// What the call does, in words.
    pub open spec fn spec_describe(self) -> &'static str {
        match self {
            CameraAction::Initialize => "initialize camera",
            CameraAction::GetImage => "get image",
            CameraAction::Uninitialize => "uninitialize camera",
        }
    }

    /// What the call does, in words.
    pub fn describe(self) -> (words: &'static str)
        ensures
            words == self.spec_describe(),
    {
        match self {
            CameraAction::Initialize => "initialize camera",
            CameraAction::GetImage => "get image",
            CameraAction::Uninitialize => "uninitialize camera",
        }
    }
}

/// A call into the SDK that failed: the call, the status it returned, and
/// the name of that status.
#[derive(Clone, Copy, Debug)]
pub struct CameraError {
    pub action: CameraAction,
    pub code: u8,
    pub name: &'static str,
}

/// The name of status `code`: its entry in the table, or
/// `UNKNOWN_ERR_NAME` where the table has none.
pub open spec fn spec_err_name(code: u8) -> &'static str {
    if code < ERR_NAME@.len() {
        ERR_NAME[code as int]
    } else {
        UNKNOWN_ERR_NAME
    }
}

/// What a status returned by the call `action` amounts to.
pub open spec fn spec_check_status(action: CameraAction, status: u8) -> Result<(), CameraError> {
    if status == STATUS_OK {
        Ok(())
    } else {
        Err(CameraError { action, code: status, name: spec_err_name(status) })
    }
}

/// The ten digits.
pub const DIGITS: [&'static str; 10] = ["0", "1", "2", "3", "4", "5", "6", "7", "8", "9"];

/// `code` in decimal digits, without leading zeros.
pub open spec fn decimal(code: u8) -> Seq<char> {
    if code < 10 {
        DIGITS[code as int]@
    } else if code < 100 {
        DIGITS[code as int / 10]@ + DIGITS[code as int % 10]@
    } else {
        DIGITS[code as int / 100]@ + DIGITS[code as int / 10 % 10]@ + DIGITS[code as int % 10]@
    }
}

impl CameraError {
    /// The failure in one line: the call, the status and the name of the
    /// status.
    pub open spec fn spec_message(self) -> Seq<char> {
        "Failed to "@ + self.action.spec_describe()@ + ", err code: "@ + decimal(self.code)
            + " ("@ + self.name@ + ")"@
    }

    /// The failure in one line: the call, the status and the name of the
    /// status.
    pub fn message(&self) -> (text: String)
        ensures
            text@ == self.spec_message(),
    {
        let mut text = String::from_str("Failed to ");
        text.append(self.action.describe());
        text.append(", err code: ");
        if self.code >= 100 {
            text.append(DIGITS[(self.code / 100) as usize]);
        }
        if self.code >= 10 {
            text.append(DIGITS[((self.code / 10) % 10) as usize]);
        }
        text.append(DIGITS[(self.code % 10) as usize]);
        text.append(" (");
        text.append(self.name);
        text.append(")");
        text
    }
}

/// The name of status `code`.
pub fn err_name(code: u8) -> (name: &'static str)
    ensures
        name == spec_err_name(code),
{
    if (code as usize) < ERR_NAME.len() {
        ERR_NAME[code as usize]
    } else {
        UNKNOWN_ERR_NAME
    }
}

/// Reads the status that the call `action` returned: success, or the failure
/// with its code and name.
pub fn check_status(action: CameraAction, status: u8) -> (outcome: Result<(), CameraError>)
    ensures
        outcome == spec_check_status(action, status),
{
    if status == STATUS_OK {
        Ok(())
    } else {
        Err(CameraError { action, code: status, name: err_name(status) })
    }
}

/// Whether a failed initialization has to be followed by a shutdown: only
/// where the SDK reports that it had got as far as initializing itself.
pub fn needs_shutdown(status: u8, already_initialized: u8) -> (needed: bool)
    ensures
        needed == (status != STATUS_OK && already_initialized != 0),
{
    status != STATUS_OK && already_initialized != 0
}

} // verus!
