use std::rc::Rc;
use uplink::extensions::{check_extension_version, AvailableExtensions, ExtensionRegistrar, LoadError};
use uplink::prism::{get_prism_path, use_prism_path, PrismScripts};
use uplink::warp_runner::{
    after_create_identity, after_login, check_tesseract_file, plan_login_command, AfterCreate,
    AfterLogin, AutosaveRetry, AutosaveStep, LoginCommand, LoginFailure, LoginPlan, Manager,
    UnlockError, UnlockRetry, UnlockStep, WarpCmd, WarpRunner,
};

#[test]
fn runner_starts_once() {
    let mut r = WarpRunner::new();
    r.run();
}

#[test]
fn unlock_gives_up_after_five() {
    let mut u = UnlockRetry::new();
    for _ in 0..4 {
        assert!(u.on_result(Err(UnlockError::Other)) == UnlockStep::SleepThenRetry);
    }
    assert!(u.on_result(Err(UnlockError::Other)) == UnlockStep::SleepThenFail);
    let mut v = UnlockRetry::new();
    assert!(v.on_result(Err(UnlockError::Decryption)) == UnlockStep::Fail);
    assert!(v.on_result(Ok(())) == UnlockStep::Unlocked);
}

#[test]
fn autosave_retries() {
    let mut a = AutosaveRetry::new();
    assert!(a.on_check(true) == AutosaveStep::Done);
    for _ in 0..4 {
        assert!(a.on_check(false) == AutosaveStep::Retry);
    }
    assert!(a.on_check(false) == AutosaveStep::RetryThenFail);
    assert!(check_tesseract_file(true).is_ok());
    assert!(check_tesseract_file(false) == Err(LoginFailure::CannotSaveTesseract));
}

#[test]
fn login_commands() {
    match plan_login_command(LoginCommand::CreateIdentity { username: "ann".into(), passphrase: "pw".into() }) {
        LoginPlan::LogIn { passphrase, clear_tesseract, create_username } => {
            assert_eq!(passphrase, "pw");
            assert!(clear_tesseract);
            assert_eq!(create_username, Some("ann".to_string()));
        }
        _ => panic!("expected a login"),
    }
    match plan_login_command(LoginCommand::TryLogIn { passphrase: "pw".into() }) {
        LoginPlan::LogIn { clear_tesseract, create_username, .. } => {
            assert!(!clear_tesseract);
            assert!(create_username.is_none());
        }
        _ => panic!("expected a login"),
    }
    assert!(matches!(plan_login_command(LoginCommand::KeyExists { key: "k".into() }), LoginPlan::CheckKey { .. }));
    assert!(matches!(plan_login_command(LoginCommand::Other), LoginPlan::Ignore));
    assert!(matches!(after_login(Some("ann".into()), false), AfterLogin::ReplyErrorAndWait));
    assert!(matches!(after_login(None, true), AfterLogin::Finish));
    assert!(matches!(after_login(Some("ann".into()), true), AfterLogin::CreateIdentity(_)));
    assert!(after_create_identity(true) == AfterCreate::SaveReplyOkAndFinish);
    assert!(after_create_identity(false) == AfterCreate::ReplyErrorAndWait);
}

#[test]
fn stream_manager() {
    let mut m: Manager<&str> = Manager::new();
    assert_eq!(m.add_stream(1, "first"), None);
    assert_eq!(m.add_stream(1, "second"), Some("first"));
    assert_eq!(m.add_stream(2, "other"), None);
    assert_eq!(m.remove_stream(1), Some("second"));
    assert_eq!(m.remove_stream(1), None);
    let all = m.take_all();
    assert_eq!(all.len(), 1);
    assert_eq!(m.take_all().len(), 0);
}

#[test]
fn command_text() {
    let c: WarpCmd<(), (), (), ()> = WarpCmd::Tesseract(());
    assert_eq!(c.display_with("KeyExists"), "Tesseract { KeyExists } ");
    let r: WarpCmd<(), (), (), ()> = WarpCmd::RayGun(());
    assert_eq!(r.display_with("Send"), "RayGun { Send } ");
    let s: WarpCmd<(), (), (), ()> = WarpCmd::Constellation(());
    assert_eq!(s.display_with("Upload"), "Upload");
}

#[test]
fn extensions_registry() {
    let lib_a = Rc::new("lib-a");
    let mut reg: ExtensionRegistrar<u32, &str> = ExtensionRegistrar::new(lib_a.clone());
    reg.register("emoji", 1);
    reg.register("giphy", 2);
    reg.register("emoji", 3);
    assert!(Rc::ptr_eq(reg.lib(), &lib_a));
    let mut avail: AvailableExtensions<u32, &str> = AvailableExtensions::new();
    assert!(!avail.contains(&"emoji".to_string()));
    let mut old_reg: ExtensionRegistrar<u32, &str> = ExtensionRegistrar::new(Rc::new("lib-0"));
    old_reg.register("giphy", 9);
    old_reg.register("gif", 8);
    avail.add_loaded(old_reg);
    avail.add_loaded(reg);
    assert!(avail.contains(&"emoji".to_string()));
    assert!(avail.contains(&"giphy".to_string()));
    assert!(!avail.contains(&"other".to_string()));
    let emoji = avail.get(&"emoji".to_string()).unwrap();
    assert_eq!(emoji.extension, 3);
    assert!(Rc::ptr_eq(&emoji.lib, &lib_a));
    let giphy = avail.get(&"giphy".to_string()).unwrap();
    assert_eq!(giphy.extension, 2);
    assert!(Rc::ptr_eq(&giphy.lib, &lib_a));
    let gif = avail.get(&"gif".to_string()).unwrap();
    assert_eq!((gif.extension, *gif.lib), (8, "lib-0"));
    assert!(avail.get(&"other".to_string()).is_none());
    let v = |s: &str| s.to_string();
    assert!(check_extension_version(&v("1.70"), &v("0.1"), &v("1.70"), &v("0.1")).is_ok());
    assert!(check_extension_version(&v("1.69"), &v("0.1"), &v("1.70"), &v("0.1")) == Err(LoadError::VersionMismatch));
    assert!(check_extension_version(&v("1.70"), &v("0.2"), &v("1.70"), &v("0.1")) == Err(LoadError::VersionMismatch));
}

#[test]
fn prism_paths() {
    let dot = vec!["C:".to_string(), ".uplink".to_string()];
    assert_eq!(get_prism_path(true, true, &dot, None), vec!["C:", ".uplink", "prism_langs"]);
    assert_eq!(get_prism_path(true, false, &dot, Some(vec!["/opt".to_string()])), vec!["/opt", "prism_langs"]);
    assert_eq!(get_prism_path(true, false, &dot, None), vec!["prism_langs"]);
    assert_eq!(get_prism_path(false, true, &dot, None), vec!["ui", "extra", "prism_langs"]);
    assert_eq!(use_prism_path("/a/b"), "Prism.plugins.autoloader.languages_path = '/a/b';");
    let s = PrismScripts("P", "/x", "E");
    assert_eq!(s, vec!["P".to_string(), "Prism.plugins.autoloader.languages_path = '/x';".to_string(), "E".to_string()]);
}
