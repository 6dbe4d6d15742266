use pls::args::PLSArguments;
use pls::args::PLSOptions;
use pls::args::RuntimeArguments;
use pls::args::RuntimeOptions;

#[test]
fn options_keep_switches() {
    let options = PLSOptions::init(true, false);
    assert!(options.debug);
    assert!(!options.colorcode);
}

#[test]
fn runtime_options_answer_debug() {
    assert!(RuntimeOptions::gather(PLSOptions::init(true, true)).is_debug());
    assert!(!RuntimeOptions::gather(PLSOptions::init(false, true)).is_debug());
}

#[test]
fn arguments_keep_fields() {
    let args = PLSArguments::init(Some("/srv".to_string()), false, true);
    assert_eq!(args.dir.as_deref(), Some("/srv"));
    assert!(!args.debug);
    assert!(args.colorcode);
}

#[test]
fn runtime_arguments_answer_directory() {
    let with_dir = RuntimeArguments::gather(PLSArguments::init(Some("/srv".to_string()), false, false));
    assert_eq!(with_dir.directory().map(|d| d.as_str()), Some("/srv"));
    let without = RuntimeArguments::gather(PLSArguments::init(None, true, false));
    assert_eq!(without.directory(), None);
    assert!(without.is_debug());
}
