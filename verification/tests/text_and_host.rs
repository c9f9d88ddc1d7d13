use blackhole::decor::{desktop_ini_content, launchd_plist_content, replace_first};
use blackhole::digits::u32_to_string;
use blackhole::errors::{BlackholeError, InvalidReason};
use blackhole::logs::{enabled, format_log_line, init, level_tag, log_line, LogLevel};
use blackhole::ops::Operation;
use blackhole::paths::FsPath;
use blackhole::purge::new_staging_name;
use blackhole::settings::{FolderLocation, Settings};
use blackhole::show::Show;

fn path(components: &[&str]) -> FsPath {
    FsPath::from_components(components.iter().map(|c| c.to_string()).collect())
}

#[test]
fn decimal_rendering() {
    assert_eq!(u32_to_string(0), "0");
    assert_eq!(u32_to_string(7), "7");
    assert_eq!(u32_to_string(10), "10");
    assert_eq!(u32_to_string(105), "105");
    assert_eq!(u32_to_string(u32::MAX), "4294967295");
}

#[test]
fn log_file_names() {
    assert_eq!(init(&Operation::Initialize), "BLACKHOLE.log");
    assert_eq!(init(&Operation::Purge), "BLACKHOLE_PURGE.log");
    assert_eq!(
        init(&Operation::SendTo("/tmp/x".to_string())),
        "BLACKHOLE_SENDTO.log"
    );
}

#[test]
fn log_levels_and_lines() {
    assert!(enabled(LogLevel::Error));
    assert!(enabled(LogLevel::Warn));
    assert!(enabled(LogLevel::Info));
    assert!(!enabled(LogLevel::Debug));
    assert!(!enabled(LogLevel::Trace));
    assert_eq!(level_tag(LogLevel::Error), "ERROR");
    assert_eq!(level_tag(LogLevel::Info), "INFO");
    let line = format_log_line(
        &"2024-01-01 10:00:00".to_string(),
        LogLevel::Info,
        &"Purging Blackhole".to_string(),
    );
    assert_eq!(line, "[2024-01-01 10:00:00] [INFO]: Purging Blackhole");
}

#[test]
fn show_messages() {
    assert_eq!(Show::panic(&"boom".to_string()), "Blackhole PANIC: boom");
    assert_eq!(Show::error(&"oops".to_string()), "Blackhole ERROR: oops");
    assert_eq!(Show::msg(&"hi".to_string()), "Blackhole INFO: hi");
}

#[test]
fn error_messages() {
    assert_eq!(
        BlackholeError::Configuration.message(),
        "No home directory or BLACKHOLE_DIR override set"
    );
    assert_eq!(
        BlackholeError::InvalidInput(InvalidReason::MissingSource).message(),
        "File does not exist"
    );
    assert_eq!(
        BlackholeError::InvalidInput(InvalidReason::AlreadyInBlackhole).message(),
        "This file or folder is already in your Blackhole"
    );
    assert_eq!(
        BlackholeError::InvalidInput(InvalidReason::NotFileOrDirectory).message(),
        "Path provided was not a file or directory"
    );
    assert_eq!(
        BlackholeError::Trash.message(),
        "Failed to move the purge batch to the trash"
    );
    assert_eq!(BlackholeError::ResourceExhausted.message(), "File already exists");
    let io = BlackholeError::Io {
        source: path(&["tmp", "a.txt"]),
        dest: path(&["home", "BLACKHOLE", "a.txt"]),
    };
    assert_eq!(
        io.message(),
        "Failed to move file/folder to Blackhole: tmp/a.txt -> home/BLACKHOLE/a.txt"
    );
}

#[test]
fn settings_paths() {
    let conf = path(&["/", "home", "user", ".config"]);
    let p = Settings::path(&conf);
    assert_eq!(p.depth(), 6);
    assert_eq!(p.file_name(), Some(&"settings.json".to_string()));
    let home = path(&["/", "home", "user"]);
    let loc = FolderLocation::resolve_default(Some(home), path(&["/", "tmp"]));
    assert!(matches!(loc, FolderLocation::HomeDir(_)));
    assert_eq!(loc.path().depth(), 3);
    let fallback = FolderLocation::resolve_default(None, path(&["/", "tmp"]));
    assert!(matches!(fallback, FolderLocation::Custom(_)));
    assert_eq!(fallback.path().file_name(), Some(&"tmp".to_string()));
}

#[test]
fn settings_file_and_defaults_have_the_right_shape() {
    if let Some(p) = Settings::settings_file() {
        assert_eq!(p.file_name(), Some(&"settings.json".to_string()));
        assert!(p.depth() >= 2);
    }
    let d = Settings::defaults(path(&["/", "tmp"]));
    match d.folder_location {
        FolderLocation::HomeDir(_) => {}
        FolderLocation::Custom(p) => assert_eq!(p.file_name(), Some(&"tmp".to_string())),
    }
}

#[test]
fn staging_names_are_unique_and_prefixed() {
    let a = new_staging_name();
    assert_eq!(a.chars().count(), "BLACKHOLE_PURGE_".len() + 36);
    assert!(a.starts_with("BLACKHOLE_PURGE_"));
    assert_eq!(a.chars().filter(|c| *c == '-').count(), 4);
    let b = new_staging_name();
    assert_ne!(a, b);
}

#[test]
fn log_lines_carry_a_timestamp() {
    let line = log_line(LogLevel::Info, &"ready".to_string());
    assert!(line.starts_with('['));
    assert!(line.ends_with("] [INFO]: ready"));
    assert!(line.len() > "[] [INFO]: ready".len());
}

#[test]
fn xml_escaping_matches_the_documented_table() {
    let template = "$BLACKHOLE_EXE_PATH".to_string();
    assert_eq!(
        launchd_plist_content(&template, &"<a>'\"&\r".to_string()),
        "&lt;a&gt;&apos;&quot;&amp;&#13;"
    );
    assert_eq!(launchd_plist_content(&template, &"plain".to_string()), "plain");
}

#[test]
fn replace_first_substitutes_once() {
    assert_eq!(
        replace_first("a $X b $X", "$X", "yes"),
        "a yes b $X"
    );
    assert_eq!(replace_first("nothing here", "$X", "yes"), "nothing here");
    assert_eq!(replace_first("", "$X", "yes"), "");
}

#[test]
fn launchd_plist_substitution_escapes_the_path() {
    let template = "<string>$BLACKHOLE_EXE_PATH</string>".to_string();
    let exe = "/Apps/B&H/blackhole".to_string();
    assert_eq!(
        launchd_plist_content(&template, &exe),
        "<string>/Apps/B&amp;H/blackhole</string>"
    );
    let without = "<string>fixed</string>".to_string();
    assert_eq!(launchd_plist_content(&without, &exe), "<string>fixed</string>");
}

#[test]
fn desktop_ini_text_is_exact() {
    let content = desktop_ini_content(Some(&"C:\\Apps\\blackhole.exe".to_string()));
    let expected = "[.ShellClassInfo]\n\
                    ConfirmFileOp=0\n\
                    InfoTip=WARNING: All files stored here will be deleted at the next startup\n\
                    IconResource=C:\\Apps\\blackhole.exe,0\n\
                    \n\
                    [ViewState]\n\
                    Mode=\n\
                    Vid=\n\
                    FolderType=Generic\n";
    assert_eq!(content, expected);
}

#[test]
fn desktop_ini_without_an_icon() {
    let content = desktop_ini_content(None);
    assert!(!content.contains("IconResource"));
    assert!(content.contains("[ViewState]"));
    assert!(content.contains("ConfirmFileOp=0"));
}
