use almond::clang::{wrapper_is_cpp, dll_extension, ClangWrapper, CommandPart, LLVMPass, Platform, WrapperError};

fn args(a: &[&str]) -> Vec<String> {
    a.iter().map(|s| s.to_string()).collect()
}

fn arg(s: &str) -> CommandPart {
    CommandPart::Arg(s.to_string())
}

const RT: &str = "/out/libno-link-rt.a";

fn wrapper() -> ClangWrapper {
    ClangWrapper::new(Platform::Linux, "/usr/bin/clang", "/usr/bin/clang++")
}

#[test]
fn llvm_pass_names() {
    assert_eq!(LLVMPass::transform().name(), "transform-pass");
    assert_eq!(LLVMPass::syscall().name(), "syscall-pass");
    assert_eq!(LLVMPass::new("my-pass").name(), "my-pass");
    assert_eq!(LLVMPass::new("my-pass").file_name(Platform::Linux), "my-pass.so");
    assert_eq!(LLVMPass::syscall().file_name(Platform::Apple), "syscall-pass.dylib");
    assert_eq!(dll_extension(Platform::Windows), "dll");
    assert_eq!(dll_extension(Platform::OtherUnix), "so");
}

#[test]
fn parse_args_errors() {
    let mut w = wrapper();
    assert_eq!(
        w.parse_args(&args(&[]), RT),
        Err(WrapperError::InvalidArguments("The number of arguments cannot be 0".to_string()))
    );
    assert_eq!(
        w.parse_args(&args(&["almond-cc"]), RT),
        Err(WrapperError::InvalidArguments(
            "LibAFL Tool wrapper - no commands specified. Use me as compiler.".to_string()
        ))
    );
    assert_eq!(
        w.parse_args(&args(&["almond-cc", "-c", "a.c"]), RT),
        Err(WrapperError::Unknown(
            "ToolWrapper::parse_args cannot be called twice on the same instance".to_string()
        ))
    );
}

#[test]
fn lone_version_probe_is_passed_through() {
    let mut w = wrapper();
    assert_eq!(w.parse_args(&args(&["almond-cc", "-v"]), RT), Ok(()));
    assert!(!w.is_linking());
    assert_eq!(w.command(), vec![arg("/usr/bin/clang"), arg("-v"), CommandPart::ConfigurationFlags]);
}

#[test]
fn compile_only_command() {
    let mut w = wrapper();
    w.add_pass(LLVMPass::transform());
    w.add_cc_arg("-fno-pic");
    w.add_link_arg("-lfoo");
    assert_eq!(w.parse_args(&args(&["almond-cc", "-c", "foo.c", "-o", "foo.o"]), RT), Ok(()));
    assert!(!w.is_linking());
    assert_eq!(
        w.command(),
        vec![
            arg("/usr/bin/clang"),
            arg("-o"),
            CommandPart::Tagged("foo.o".to_string()),
            arg("-c"),
            arg("foo.c"),
            arg("-g"),
            arg("-O3"),
            arg("-funroll-loops"),
            arg("-DFUZZING_BUILD_MODE_UNSAFE_FOR_PRODUCTION=1"),
            CommandPart::ConfigurationFlags,
            arg("-Xclang"),
            arg("-load"),
            arg("-Xclang"),
            CommandPart::PassPath("transform-pass".to_string()),
            arg("-Xclang"),
            CommandPart::PassPlugin("transform-pass".to_string()),
            arg("-fno-pic"),
        ]
    );
}

#[test]
fn no_link_switch_suppresses_linking() {
    let mut w = wrapper();
    w.optimize(false);
    assert_eq!(
        w.parse_args(&args(&["almond-cc++", "main.o", "--libafl-no-link", "-o", "prog"]), RT),
        Ok(())
    );
    assert!(!w.is_linking());
    assert_eq!(
        w.command(),
        vec![
            arg("/usr/bin/clang++"),
            arg("-o"),
            CommandPart::Tagged("prog".to_string()),
            arg("main.o"),
            CommandPart::Tagged(RT.to_string()),
            arg("-g"),
            arg("-DFUZZING_BUILD_MODE_UNSAFE_FOR_PRODUCTION=1"),
            CommandPart::ConfigurationFlags,
        ]
    );
}

#[test]
fn runtime_switch_links_with_platform_libraries() {
    let mut w = wrapper();
    w.optimize(false);
    w.add_link_arg("-lfoo");
    assert_eq!(
        w.parse_args(
            &args(&["almond-cc", "main.o", "--libafl", "-z", "defs", "-Wl,--no-undefined", "-z", "now"]),
            RT
        ),
        Ok(())
    );
    assert!(w.is_linking());
    assert_eq!(
        w.command(),
        vec![
            arg("/usr/bin/clang"),
            arg("main.o"),
            arg("-z"),
            arg("now"),
            arg("-g"),
            arg("-DFUZZING_BUILD_MODE_UNSAFE_FOR_PRODUCTION=1"),
            arg("-lrt"),
            CommandPart::ConfigurationFlags,
            arg("-lfoo"),
            arg("-pthread"),
            arg("-ldl"),
            arg("-lm"),
        ]
    );
}

#[test]
fn configurations_and_ignoring() {
    let mut w = wrapper();
    assert_eq!(
        w.parse_args(
            &args(&["almond-cc", "--libafl-configurations", "asan,cmplog", "--libafl-ignore-configurations", "x.c"]),
            RT
        ),
        Ok(())
    );
    assert_eq!(w.configuration_names(), vec!["asan".to_string(), "cmplog".to_string()]);
    assert!(w.ignore_configurations());
}

#[test]
fn output_is_named_after_the_source_for_other_configurations() {
    let mut w = wrapper();
    w.optimize(false);
    assert_eq!(w.parse_args(&args(&["almond-cc", "-c", "dir.", "-I", "x.C", "libz.A"]), RT), Ok(()));
    let plan = w.command_for_configuration(false);
    assert_eq!(plan[1], arg("-o"));
    assert_eq!(plan[2], CommandPart::TaggedObject("x.C".to_string()));
    assert_eq!(plan[3], arg("-c"));
    assert_eq!(plan[4], arg("dir."));
    assert_eq!(plan[7], CommandPart::Tagged("libz.A".to_string()));
    // The default configuration names no output.
    assert_eq!(w.command()[1], arg("-c"));
}

#[test]
fn linking_without_output_targets_a_out() {
    let mut w = wrapper();
    w.optimize(false);
    assert_eq!(w.parse_args(&args(&["almond-cc", "x.cpp", "--libafl"]), RT), Ok(()));
    let plan = w.command_for_configuration(false);
    assert_eq!(plan[1], arg("-o"));
    assert_eq!(plan[2], CommandPart::Tagged("a.out".to_string()));
}

#[test]
fn filter_drops_blocked_arguments() {
    let w = wrapper();
    let mut a = args(&["-O2", "-fconserve-stack", "-Wunused-command-line-argument", "-c", "-Werror=unused-command-line-argument"]);
    w.filter(&mut a);
    assert_eq!(a, args(&["-O2", "-c"]));
}

#[test]
fn static_libraries_are_linked_whole() {
    let mut w = wrapper();
    w.link_staticlib("/out/libx.a");
    let mut mac = ClangWrapper::new(Platform::Apple, "cc", "c++");
    mac.link_staticlib("/out/libx.a");
    assert_eq!(w.parse_args(&args(&["almond-cc", "--libafl", "m.o"]), RT), Ok(()));
    let plan = w.command();
    let tail: Vec<CommandPart> = plan[plan.len() - 6..].to_vec();
    assert_eq!(
        tail,
        vec![
            arg("-Wl,--whole-archive"),
            arg("/out/libx.a"),
            arg("-Wl,--no-whole-archive"),
            arg("-pthread"),
            arg("-ldl"),
            arg("-lm"),
        ]
    );
}

#[test]
fn assembly_sources_are_noticed() {
    let mut w = wrapper();
    w.silence(true);
    assert!(w.is_silent());
    w.cpp(true);
    assert_eq!(w.parse_args(&args(&["almond-cc", "-c", "start.S"]), RT), Ok(()));
    assert_eq!(w.command()[0], arg("/usr/bin/clang++"));
}

#[test]
fn wrapper_kind_from_program_name() {
    assert_eq!(wrapper_is_cpp("almond-cc"), Some(false));
    assert_eq!(wrapper_is_cpp("ALMOND-CC"), Some(false));
    assert_eq!(wrapper_is_cpp("almond-c++"), Some(true));
    assert_eq!(wrapper_is_cpp("almond-cpp"), Some(true));
    assert_eq!(wrapper_is_cpp("almond-cXX"), Some(true));
    assert_eq!(wrapper_is_cpp("almond"), None);
    assert_eq!(wrapper_is_cpp("c"), None);
}
