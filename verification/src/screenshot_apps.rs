//! The known screenshot, recording and screen-sharing software, by which
//! running processes are recognized as capture threats.

use vstd::prelude::*;

verus! {

/// How a capturing application threatens a window's contents.
#[derive(Debug, Clone, Copy, PartialEq, Eq, Structural)]
pub enum ThreatLevel {
    /// A screenshot tool built into Windows (Snipping Tool, Win+Shift+S).
    High,
    /// A third-party screenshot or recording tool (ShareX, OBS, ...).
    High2,
    /// Remote desktop or meeting software that shares the screen.
    Medium,
    /// A browser that may carry screenshot extensions.
    Low,
}

impl ThreatLevel {
    /// The level's key: both high levels are `"high"`.
    pub open spec fn key_spec(self) -> Seq<char> {
        match self {
            ThreatLevel::High => "high"@,
            ThreatLevel::High2 => "high"@,
            ThreatLevel::Medium => "medium"@,
            ThreatLevel::Low => "low"@,
        }
    }

    /// The label shown to the user.
    pub open spec fn label_spec(self) -> Seq<char> {
        match self {
            ThreatLevel::High => "系统截图工具"@,
            ThreatLevel::High2 => "第三方截录屏"@,
            ThreatLevel::Medium => "远程/会议共享"@,
            ThreatLevel::Low => "浏览器"@,
        }
    }

    /// The level's key: `"high"`, `"medium"` or `"low"`.
    pub fn as_str(&self) -> (r: &'static str)
        ensures
            r@ == self.key_spec(),
    {
        match self {
            Self::High => "high",
            Self::High2 => "high",
            Self::Medium => "medium",
            Self::Low => "low",
        }
    }

    /// The label shown to the user.
    pub fn label(&self) -> (r: &'static str)
        ensures
            r@ == self.label_spec(),
    {
        match self {
            Self::High => "系统截图工具",
            Self::High2 => "第三方截录屏",
            Self::Medium => "远程/会议共享",
            Self::Low => "浏览器",
        }
    }
}

/// Both high levels share their key; the levels otherwise have distinct keys.
pub proof fn lemma_threat_keys()
    ensures
        ThreatLevel::High.key_spec() == ThreatLevel::High2.key_spec(),
        ThreatLevel::High.key_spec() != ThreatLevel::Medium.key_spec(),
        ThreatLevel::High.key_spec() != ThreatLevel::Low.key_spec(),
        ThreatLevel::Medium.key_spec() != ThreatLevel::Low.key_spec(),
{
    reveal_strlit("high");
    reveal_strlit("medium");
    reveal_strlit("low");
    assert("high"@.len() == 4);
    assert("medium"@.len() == 6);
    assert("low"@.len() == 3);
}

/// A known capturing application and the names of its processes.
#[derive(Debug, Clone, Copy)]
pub struct ScreenshotApp {
    pub display_name: &'static str,
    pub process_names: &'static [&'static str],
    pub threat_level: ThreatLevel,
    pub description: &'static str,
}

/// The known applications: display name, process names, threat level, description.
pub open spec fn known_apps_table() -> Seq<(Seq<char>, Seq<Seq<char>>, ThreatLevel, Seq<char>)> {
    seq![
        ("截图工具 (Snipping Tool)"@, seq!["SnippingTool.exe"@, "ScreenSketch.exe"@], ThreatLevel::High, "Windows 内置截图工具，支持 Win+Shift+S 快捷截图"@),
        ("步骤记录器 (Steps Recorder)"@, seq!["psr.exe"@], ThreatLevel::High, "Windows 步骤记录器，自动截取每一步操作"@),
        ("Xbox Game Bar"@, seq!["GameBar.exe"@, "GameBarFTServer.exe"@], ThreatLevel::High, "Win+G 游戏栏，支持截图和录屏"@),
        ("Windows Media Player 录制"@, seq!["wmprph.exe"@], ThreatLevel::High, "Windows 媒体录制"@),
        ("ShareX"@, seq!["ShareX.exe"@], ThreatLevel::High2, "开源截图/录屏工具，支持自动上传"@),
        ("Greenshot"@, seq!["Greenshot.exe"@], ThreatLevel::High2, "轻量级截图工具"@),
        ("Lightshot"@, seq!["lightshot.exe"@, "prntscr.exe"@], ThreatLevel::High2, "快速截图工具"@),
        ("FastStone Capture"@, seq!["FSCapture.exe"@], ThreatLevel::High2, "老牌截图工具"@),
        ("Snipaste"@, seq!["Snipaste.exe"@], ThreatLevel::High2, "截图贴图工具"@),
        ("PicPick"@, seq!["picpick.exe"@], ThreatLevel::High2, "截图+图片编辑工具"@),
        ("Flameshot"@, seq!["flameshot.exe"@], ThreatLevel::High2, "开源跨平台截图工具"@),
        ("OBS Studio"@, seq!["obs64.exe"@, "obs32.exe"@], ThreatLevel::High2, "开源录屏/直播软件"@),
        ("Bandicam"@, seq!["bdcam.exe"@, "BDCam.exe"@], ThreatLevel::High2, "专业录屏软件"@),
        ("Camtasia"@, seq!["CamtasiaStudio.exe"@, "CamRecorder.exe"@], ThreatLevel::High2, "专业录屏+视频编辑"@),
        ("CamStudio"@, seq!["CamStudio.exe"@, "CamStudio_Recorder.exe"@], ThreatLevel::High2, "开源录屏软件"@),
        ("FRAPS"@, seq!["fraps.exe"@, "FRAPS.exe"@], ThreatLevel::High2, "游戏截图/录屏"@),
        ("Action!"@, seq!["Action.exe"@], ThreatLevel::High2, "游戏录屏软件"@),
        ("oCam"@, seq!["oCam.exe"@], ThreatLevel::High2, "屏幕录制软件"@),
        ("EV 录屏"@, seq!["EVCapture.exe"@], ThreatLevel::High2, "国产录屏软件"@),
        ("嗨格式录屏"@, seq!["HgRecorder.exe"@], ThreatLevel::High2, "国产录屏软件"@),
        ("腾讯会议"@, seq!["wemeetapp.exe"@, "WeMeetApp.exe"@, "Meeting.exe"@], ThreatLevel::Medium, "支持屏幕共享的会议软件"@),
        ("钉钉"@, seq!["DingTalk.exe"@, "dingtalk.exe"@], ThreatLevel::Medium, "支持屏幕共享的办公软件"@),
        ("飞书"@, seq!["Lark.exe"@, "Feishu.exe"@], ThreatLevel::Medium, "支持屏幕共享的办公软件"@),
        ("Zoom"@, seq!["Zoom.exe"@, "zoom.exe"@], ThreatLevel::Medium, "视频会议软件，支持屏幕共享"@),
        ("Teams"@, seq!["Teams.exe"@, "ms-teams.exe"@], ThreatLevel::Medium, "Microsoft Teams，支持屏幕共享"@),
        ("企业微信"@, seq!["WXWork.exe"@], ThreatLevel::Medium, "企业微信，支持屏幕共享"@),
        ("TeamViewer"@, seq!["TeamViewer.exe"@, "TeamViewer_Service.exe"@], ThreatLevel::Medium, "远程桌面控制软件"@),
        ("AnyDesk"@, seq!["AnyDesk.exe"@], ThreatLevel::Medium, "远程桌面软件"@),
        ("向日葵远程"@, seq!["SunloginClient.exe"@, "sunloginclient.exe"@], ThreatLevel::Medium, "国产远程桌面软件"@),
        ("ToDesk"@, seq!["ToDesk.exe"@], ThreatLevel::Medium, "远程桌面软件"@),
        ("RustDesk"@, seq!["rustdesk.exe"@], ThreatLevel::Medium, "开源远程桌面软件"@),
        ("Discord"@, seq!["Discord.exe"@, "discord.exe"@, "DiscordPTB.exe"@, "DiscordCanary.exe"@], ThreatLevel::Medium, "支持屏幕共享的通讯软件"@),
        ("QQ"@, seq!["QQ.exe"@, "QQProtect.exe"@], ThreatLevel::Medium, "支持屏幕分享的即时通讯"@),
        ("Skype"@, seq!["Skype.exe"@, "skype.exe"@], ThreatLevel::Medium, "支持屏幕共享的通讯软件"@),
    ]
}

/// The process names of `app`.
pub open spec fn process_names_of(app: ScreenshotApp) -> Seq<Seq<char>> {
    app.process_names@.map_values(|n: &str| n@)
}

/// `app` is the table's entry `e`.
pub open spec fn app_is_entry(app: ScreenshotApp, e: (Seq<char>, Seq<Seq<char>>, ThreatLevel, Seq<char>)) -> bool {
    &&& app.display_name@ == e.0
    &&& process_names_of(app) == e.1
    &&& app.threat_level == e.2
    &&& app.description@ == e.3
}

/// `apps` lists, in order, the applications of the table.
pub open spec fn is_known_apps(apps: Seq<ScreenshotApp>) -> bool {
    let t = known_apps_table();
    &&& apps.len() == t.len()
    &&& forall|i: int| 0 <= i < t.len() ==> app_is_entry(#[trigger] apps[i], t[i])
}

/// The built-in list of known screenshot and recording software.
pub fn known_screenshot_apps() -> (r: Vec<ScreenshotApp>)
    ensures
        is_known_apps(r@),
{
    let r = vec![
        ScreenshotApp {
            display_name: "截图工具 (Snipping Tool)",
            process_names: &["SnippingTool.exe", "ScreenSketch.exe"],
            threat_level: ThreatLevel::High,
            description: "Windows 内置截图工具，支持 Win+Shift+S 快捷截图",
        },
        ScreenshotApp {
            display_name: "步骤记录器 (Steps Recorder)",
            process_names: &["psr.exe"],
            threat_level: ThreatLevel::High,
            description: "Windows 步骤记录器，自动截取每一步操作",
        },
        ScreenshotApp {
            display_name: "Xbox Game Bar",
            process_names: &["GameBar.exe", "GameBarFTServer.exe"],
            threat_level: ThreatLevel::High,
            description: "Win+G 游戏栏，支持截图和录屏",
        },
        ScreenshotApp {
            display_name: "Windows Media Player 录制",
            process_names: &["wmprph.exe"],
            threat_level: ThreatLevel::High,
            description: "Windows 媒体录制",
        },
        ScreenshotApp {
            display_name: "ShareX",
            process_names: &["ShareX.exe"],
            threat_level: ThreatLevel::High2,
            description: "开源截图/录屏工具，支持自动上传",
        },
        ScreenshotApp {
            display_name: "Greenshot",
            process_names: &["Greenshot.exe"],
            threat_level: ThreatLevel::High2,
            description: "轻量级截图工具",
        },
        ScreenshotApp {
            display_name: "Lightshot",
            process_names: &["lightshot.exe", "prntscr.exe"],
            threat_level: ThreatLevel::High2,
            description: "快速截图工具",
        },
        ScreenshotApp {
            display_name: "FastStone Capture",
            process_names: &["FSCapture.exe"],
            threat_level: ThreatLevel::High2,
            description: "老牌截图工具",
        },
        ScreenshotApp {
            display_name: "Snipaste",
            process_names: &["Snipaste.exe"],
            threat_level: ThreatLevel::High2,
            description: "截图贴图工具",
        },
        ScreenshotApp {
            display_name: "PicPick",
            process_names: &["picpick.exe"],
            threat_level: ThreatLevel::High2,
            description: "截图+图片编辑工具",
        },
        ScreenshotApp {
            display_name: "Flameshot",
            process_names: &["flameshot.exe"],
            threat_level: ThreatLevel::High2,
            description: "开源跨平台截图工具",
        },
        ScreenshotApp {
            display_name: "OBS Studio",
            process_names: &["obs64.exe", "obs32.exe"],
            threat_level: ThreatLevel::High2,
            description: "开源录屏/直播软件",
        },
        ScreenshotApp {
            display_name: "Bandicam",
            process_names: &["bdcam.exe", "BDCam.exe"],
            threat_level: ThreatLevel::High2,
            description: "专业录屏软件",
        },
        ScreenshotApp {
            display_name: "Camtasia",
            process_names: &["CamtasiaStudio.exe", "CamRecorder.exe"],
            threat_level: ThreatLevel::High2,
            description: "专业录屏+视频编辑",
        },
        ScreenshotApp {
            display_name: "CamStudio",
            process_names: &["CamStudio.exe", "CamStudio_Recorder.exe"],
            threat_level: ThreatLevel::High2,
            description: "开源录屏软件",
        },
        ScreenshotApp {
            display_name: "FRAPS",
            process_names: &["fraps.exe", "FRAPS.exe"],
            threat_level: ThreatLevel::High2,
            description: "游戏截图/录屏",
        },
        ScreenshotApp {
            display_name: "Action!",
            process_names: &["Action.exe"],
            threat_level: ThreatLevel::High2,
            description: "游戏录屏软件",
        },
        ScreenshotApp {
            display_name: "oCam",
            process_names: &["oCam.exe"],
            threat_level: ThreatLevel::High2,
            description: "屏幕录制软件",
        },
        ScreenshotApp {
            display_name: "EV 录屏",
            process_names: &["EVCapture.exe"],
            threat_level: ThreatLevel::High2,
            description: "国产录屏软件",
        },
        ScreenshotApp {
            display_name: "嗨格式录屏",
            process_names: &["HgRecorder.exe"],
            threat_level: ThreatLevel::High2,
            description: "国产录屏软件",
        },
        ScreenshotApp {
            display_name: "腾讯会议",
            process_names: &["wemeetapp.exe", "WeMeetApp.exe", "Meeting.exe"],
            threat_level: ThreatLevel::Medium,
            description: "支持屏幕共享的会议软件",
        },
        ScreenshotApp {
            display_name: "钉钉",
            process_names: &["DingTalk.exe", "dingtalk.exe"],
            threat_level: ThreatLevel::Medium,
            description: "支持屏幕共享的办公软件",
        },
        ScreenshotApp {
            display_name: "飞书",
            process_names: &["Lark.exe", "Feishu.exe"],
            threat_level: ThreatLevel::Medium,
            description: "支持屏幕共享的办公软件",
        },
        ScreenshotApp {
            display_name: "Zoom",
            process_names: &["Zoom.exe", "zoom.exe"],
            threat_level: ThreatLevel::Medium,
            description: "视频会议软件，支持屏幕共享",
        },
        ScreenshotApp {
            display_name: "Teams",
            process_names: &["Teams.exe", "ms-teams.exe"],
            threat_level: ThreatLevel::Medium,
            description: "Microsoft Teams，支持屏幕共享",
        },
        ScreenshotApp {
            display_name: "企业微信",
            process_names: &["WXWork.exe"],
            threat_level: ThreatLevel::Medium,
            description: "企业微信，支持屏幕共享",
        },
        ScreenshotApp {
            display_name: "TeamViewer",
            process_names: &["TeamViewer.exe", "TeamViewer_Service.exe"],
            threat_level: ThreatLevel::Medium,
            description: "远程桌面控制软件",
        },
        ScreenshotApp {
            display_name: "AnyDesk",
            process_names: &["AnyDesk.exe"],
            threat_level: ThreatLevel::Medium,
            description: "远程桌面软件",
        },
        ScreenshotApp {
            display_name: "向日葵远程",
            process_names: &["SunloginClient.exe", "sunloginclient.exe"],
            threat_level: ThreatLevel::Medium,
            description: "国产远程桌面软件",
        },
        ScreenshotApp {
            display_name: "ToDesk",
            process_names: &["ToDesk.exe"],
            threat_level: ThreatLevel::Medium,
            description: "远程桌面软件",
        },
        ScreenshotApp {
            display_name: "RustDesk",
            process_names: &["rustdesk.exe"],
            threat_level: ThreatLevel::Medium,
            description: "开源远程桌面软件",
        },
        ScreenshotApp {
            display_name: "Discord",
            process_names: &["Discord.exe", "discord.exe", "DiscordPTB.exe", "DiscordCanary.exe"],
            threat_level: ThreatLevel::Medium,
            description: "支持屏幕共享的通讯软件",
        },
        ScreenshotApp {
            display_name: "QQ",
            process_names: &["QQ.exe", "QQProtect.exe"],
            threat_level: ThreatLevel::Medium,
            description: "支持屏幕分享的即时通讯",
        },
        ScreenshotApp {
            display_name: "Skype",
            process_names: &["Skype.exe", "skype.exe"],
            threat_level: ThreatLevel::Medium,
            description: "支持屏幕共享的通讯软件",
        },
    ];
    proof {
        let t = known_apps_table();
        assert forall|i: int| 0 <= i < t.len() implies app_is_entry(#[trigger] r@[i], t[i]) by {
            assert(process_names_of(r@[i]) =~= t[i].1);
        }
    }
    r
}

} // verus!
