use rustmodlica::compat::{early_compat, late_compat, Compat};
use rustmodlica::loader::{FileEntry, LoadError, Located, ModelLoader};
use rustmodlica::newton::{allow_algebraic_newton_fallback, flag_enabled};

fn strings(v: &[&str]) -> Vec<String> {
    v.iter().map(|s| s.to_string()).collect()
}

/// Answers the loader's questions about files from a fixed table.
fn load(loader: &mut ModelLoader, name: &str, files: &[(&str, &str)]) -> Result<std::sync::Arc<rustmodlica::model::Model>, LoadError> {
    loop {
        match loader.load_model(name) {
            Err(LoadError::SourceUnknown(p)) => {
                let entry = match files.iter().find(|(path, _)| *path == p) {
                    Some((_, text)) => FileEntry::Text(text.to_string()),
                    None => FileEntry::Missing,
                };
                loader.provide_file(p, entry);
            }
            r => return r,
        }
    }
}

#[test]
fn plug_is_loaded_as_pin() {
    match early_compat("Modelica.Electrical.Analog.Interfaces.Plug") {
        Compat::Hard(v) => assert_eq!(v, strings(&["Modelica.Electrical.Analog.Interfaces.Pin"])),
        _ => panic!("expected a hard alias"),
    }
}

#[test]
fn memory_base_falls_back_to_two_pin() {
    match early_compat("Modelica.Electrical.Analog.Interfaces.MemoryBase") {
        Compat::Soft(v) => assert_eq!(v, strings(&["Modelica.Electrical.Analog.Interfaces.TwoPin"])),
        _ => panic!("expected a soft alias"),
    }
}

#[test]
fn ordinary_names_have_no_alias() {
    assert!(matches!(early_compat("Modelica.Blocks.Sources.Step"), Compat::Plain));
    assert!(matches!(late_compat("MyPackage.MyModel"), Compat::Plain));
}

#[test]
fn model_is_found_on_the_library_path() {
    let mut l = ModelLoader::new();
    l.add_path("lib".to_string());
    let m = load(&mut l, "Pkg.A", &[("lib/Pkg/A.mo", "model A Real x; end A;")]).ok().unwrap();
    assert_eq!(m.name, "A");
    assert_eq!(l.get_path_for_model("Pkg.A"), Some("lib/Pkg/A.mo".to_string()));
}

#[test]
fn package_file_comes_before_own_file() {
    let mut l = ModelLoader::new();
    l.add_path("lib".to_string());
    let files = [
        ("lib/P/package.mo", "package P model Inner end Inner; end P;"),
        ("lib/P.mo", "package P end P;"),
    ];
    let m = load(&mut l, "P", &files).ok().unwrap();
    assert_eq!(m.inner_classes.len(), 1);
    assert_eq!(l.get_path_for_model("P"), Some("lib/P/package.mo".to_string()));
}

#[test]
fn second_load_is_served_from_the_cache() {
    let mut l = ModelLoader::new();
    l.add_path("lib".to_string());
    let files = [("lib/B.mo", "model B Real y; end B;")];
    let first = load(&mut l, "B", &files).ok().unwrap();
    let second = l.load_model("B").ok().unwrap();
    assert!(std::sync::Arc::ptr_eq(&first, &second));
}

#[test]
fn inner_classes_are_cached_under_qualified_names() {
    let mut l = ModelLoader::new();
    let src = "package P model A Real x; end A; model B Real y; end B; end P;";
    let p = l.load_model_from_source("P", src).ok().unwrap();
    assert_eq!(p.inner_classes.len(), 2);
    let a = l.load_model("P.A").ok().unwrap();
    assert_eq!(a.name, "A");
    assert_eq!(l.get_path_for_model("P.B"), Some("<P>".to_string()));
}

#[test]
fn inner_class_of_a_package_file_is_found() {
    let mut l = ModelLoader::new();
    l.add_path("lib".to_string());
    let files = [("lib/Blocks/Sources.mo", "package Sources model Step Real y; end Step; end Sources;")];
    let m = load(&mut l, "Blocks.Sources.Step", &files).ok().unwrap();
    assert_eq!(m.name, "Step");
}

#[test]
fn missing_class_is_not_found() {
    let mut l = ModelLoader::new();
    l.add_path("lib".to_string());
    match load(&mut l, "Nowhere", &[]) {
        Err(LoadError::NotFound(n)) => assert_eq!(n, "Nowhere"),
        _ => panic!("expected NotFound"),
    }
}

#[test]
fn unparsable_file_reports_its_path() {
    let mut l = ModelLoader::new();
    l.add_path("lib".to_string());
    match load(&mut l, "Bad", &[("lib/Bad.mo", "model Bad Real x;")]) {
        Err(LoadError::ParseFailedAt(info)) => assert_eq!(info.path, "lib/Bad.mo"),
        _ => panic!("expected a parse error"),
    }
}

#[test]
fn unreadable_file_is_an_io_error() {
    let mut l = ModelLoader::new();
    l.add_path("lib".to_string());
    l.provide_file("lib/C/package.mo".to_string(), FileEntry::Missing);
    l.provide_file("lib/C.mo".to_string(), FileEntry::Unreadable("denied".to_string()));
    match l.load_model("C") {
        Err(LoadError::Io(n, msg)) => {
            assert_eq!(n, "C");
            assert_eq!(msg, "denied");
        }
        _ => panic!("expected an io error"),
    }
}

#[test]
fn unknown_path_is_asked_for() {
    let mut l = ModelLoader::new();
    l.add_path("lib/".to_string());
    assert!(matches!(l.locate_source("A.B"), Located::Unknown(p) if p == "lib/A/B/package.mo"));
    match l.load_model("A.B") {
        Err(LoadError::SourceUnknown(p)) => assert_eq!(p, "lib/A/B/package.mo"),
        _ => panic!("expected a question about a file"),
    }
}

#[test]
fn source_load_keeps_what_is_cached() {
    let mut l = ModelLoader::new();
    let a = l.load_model_from_source("M", "model M Real x; end M;").ok().unwrap();
    let b = l.load_model_from_source("M", "model Other end Other;").ok().unwrap();
    assert!(std::sync::Arc::ptr_eq(&a, &b));
}

#[test]
fn source_with_syntax_error_is_refused() {
    let mut l = ModelLoader::new();
    match l.load_model_from_source("M", "model M") {
        Err(LoadError::ParseFailedAt(info)) => {
            assert_eq!(info.path, "<M>");
            assert_eq!(info.source, "model M");
        }
        _ => panic!("expected a parse error"),
    }
}

#[test]
fn registered_path_is_returned() {
    let mut l = ModelLoader::new();
    assert_eq!(l.get_path_for_model("X"), None);
    l.register_path("X", "/tmp/x.mo".to_string());
    assert_eq!(l.get_path_for_model("X"), Some("/tmp/x.mo".to_string()));
}

#[test]
fn imports_of_the_parent_package_are_inherited() {
    let mut l = ModelLoader::new();
    l.add_path("lib".to_string());
    let files = [
        ("lib/P/package.mo", "package P import SI = Modelica.SIunits; end P;"),
        ("lib/P/A.mo", "model A Real x; end A;"),
    ];
    let m = load(&mut l, "P.A", &files).ok().unwrap();
    assert_eq!(m.imports, vec![("SI".to_string(), "Modelica.SIunits".to_string())]);
}

#[test]
fn example_templates_name_drops_the_part_before_it() {
    let mut l = ModelLoader::new();
    l.add_path("lib".to_string());
    let files = [("lib/Lib/ExampleTemplates/T.mo", "model T end T;")];
    let m = load(&mut l, "Lib.Extra.ExampleTemplates.T", &files).ok().unwrap();
    assert_eq!(m.name, "T");
}

#[test]
fn strict_flag_values() {
    assert!(flag_enabled(Some(" 1 "), false));
    assert!(flag_enabled(Some("TRUE"), false));
    assert!(flag_enabled(Some("Yes"), false));
    assert!(!flag_enabled(Some("no"), false));
    assert!(!flag_enabled(None, false));
}

#[test]
fn algebraic_fallback_policy() {
    assert!(allow_algebraic_newton_fallback(2, 0, false));
    assert!(!allow_algebraic_newton_fallback(2, 0, true));
    assert!(!allow_algebraic_newton_fallback(2, 1, false));
    assert!(!allow_algebraic_newton_fallback(1, 0, false));
}

#[test]
fn failed_load_of_a_plain_name_records_no_path() {
    let mut l = ModelLoader::new();
    assert!(matches!(l.load_model("Foo"), Err(LoadError::NotFound(ref n)) if n == "Foo"));
    assert_eq!(l.get_path_for_model("Foo"), None);
}

#[test]
fn missing_parent_error_is_passed_on() {
    let mut l = ModelLoader::new();
    assert!(matches!(l.load_model("A.B"), Err(LoadError::NotFound(ref n)) if n == "A"));
    assert_eq!(l.get_path_for_model("A.B"), None);
}

#[test]
fn hard_alias_gives_the_error_of_its_last_target() {
    let mut l = ModelLoader::new();
    let r = l.load_model("Modelica.Electrical.Analog.Interfaces.Plug");
    assert!(matches!(r, Err(LoadError::NotFound(ref n)) if n == "Modelica"));
}

#[test]
fn hard_alias_loads_its_target_under_the_requested_name() {
    let mut l = ModelLoader::new();
    l.add_path("lib".to_string());
    let files = [(
        "lib/Modelica/Electrical/Analog/Interfaces/Pin.mo",
        "connector Pin Real v; flow Real i; end Pin;",
    )];
    let m = load(&mut l, "Modelica.Electrical.Analog.Interfaces.Plug", &files).ok().unwrap();
    assert_eq!(m.name, "Pin");
    assert_eq!(
        l.get_path_for_model("Modelica.Electrical.Analog.Interfaces.Plug"),
        Some("lib/Modelica/Electrical/Analog/Interfaces/Pin.mo".to_string())
    );
    let again = l.load_model("Modelica.Electrical.Analog.Interfaces.Pin").ok().unwrap();
    assert!(std::sync::Arc::ptr_eq(&m, &again));
}

#[test]
fn soft_alias_falls_back_to_the_requested_name() {
    let mut l = ModelLoader::new();
    assert!(matches!(early_compat("semiLinear"), Compat::Soft(_)));
    assert!(matches!(l.load_model("semiLinear"), Err(LoadError::NotFound(ref n)) if n == "semiLinear"));
}

#[test]
fn dotted_name_without_file_is_the_inner_class_of_its_parent() {
    let mut l = ModelLoader::new();
    l.add_path("lib".to_string());
    let files = [(
        "lib/Lib/Sources.mo",
        "package Sources import SI = Modelica.Units.SI; block Step Real y; end Step; end Sources;",
    )];
    let m = load(&mut l, "Lib.Sources.Step", &files).ok().unwrap();
    assert_eq!(m.name, "Step");
    // The class registered with its package is the answer, as it was parsed.
    assert!(m.imports.is_empty());
    assert_eq!(l.get_path_for_model("Lib.Sources.Step"), Some("lib/Lib/Sources.mo".to_string()));
    let pkg = l.load_model("Lib.Sources").ok().unwrap();
    assert_eq!(pkg.imports, vec![("SI".to_string(), "Modelica.Units.SI".to_string())]);
}

#[test]
fn source_parse_error_leaves_the_loader_as_it_was() {
    let mut l = ModelLoader::new();
    assert!(matches!(l.load_model_from_source("M", "model M Real x end"), Err(LoadError::ParseFailedAt(_))));
    assert_eq!(l.get_path_for_model("M"), None);
    let m = l.load_model_from_source("M", "model M Real x; end M;").ok().unwrap();
    assert_eq!(m.name, "M");
}

#[test]
fn inner_classes_of_source_get_the_virtual_path() {
    let mut l = ModelLoader::new();
    let code = "package M model A model B Real z; end B; Real y; end A; end M;";
    l.load_model_from_source("M", code).ok().unwrap();
    assert_eq!(l.get_path_for_model("M"), Some("<M>".to_string()));
    assert_eq!(l.get_path_for_model("M.A"), Some("<M>".to_string()));
    assert_eq!(l.get_path_for_model("M.A.B"), Some("<M>".to_string()));
    let b = l.load_model("M.A.B").ok().unwrap();
    assert_eq!(b.name, "B");
}

#[test]
fn class_loaded_from_source_is_what_a_later_load_gives() {
    let mut l = ModelLoader::new();
    let a = l.load_model_from_source("M", "model M Real x; end M;").ok().unwrap();
    let b = l.load_model("M").ok().unwrap();
    assert!(std::sync::Arc::ptr_eq(&a, &b));
    assert_eq!(l.get_path_for_model("M"), Some("<M>".to_string()));
}

#[test]
fn late_table_repeats_early_for_helper_names() {
    for n in ["semiLinear", "arg", "distribution", "regStep", "FluidHeatFlow", "Material"] {
        match (early_compat(n), late_compat(n)) {
            (Compat::Soft(a), Compat::Soft(b)) => assert_eq!(a, b),
            _ => panic!("expected soft aliases in both tables for {}", n),
        }
    }
}

#[test]
fn every_alias_candidate_lies_in_the_standard_library() {
    let names = [
        "Modelica.Electrical.Analog.Interfaces.Plug",
        "Magnetic.FluxTubes.Basic.Ground",
        "FluidHeatFlow.Sources.Ambient",
        "from_degC",
        "to_rpm",
        "Sampler.SampleClocked",
        "Types.Axis",
        "semiLinear",
    ];
    for n in names {
        for c in [early_compat(n), late_compat(n)] {
            match c {
                Compat::Hard(v) | Compat::Soft(v) => {
                    assert!(!v.is_empty());
                    for t in v {
                        assert!(t.starts_with("Modelica."), "{} offers {}", n, t);
                    }
                }
                Compat::Plain => {}
            }
        }
    }
}

#[test]
fn late_table_repeats_early_for_name_families() {
    for n in ["from_degC", "to_rpm", "FluidHeatFlow.Sources.Ambient", "Material.SoftMagnetic.Steel"] {
        match (early_compat(n), late_compat(n)) {
            (Compat::Soft(a), Compat::Soft(b)) => assert_eq!(a, b),
            _ => panic!("expected soft aliases in both tables for {}", n),
        }
    }
}

fn early_targets_of(name: &str) -> Vec<String> {
    match early_compat(name) {
        Compat::Hard(v) | Compat::Soft(v) => v,
        Compat::Plain => Vec::new(),
    }
}

#[test]
fn early_aliases_end_within_two_steps() {
    let starts = [
        "Magnetic.FluxTubes.Interfaces.Source",
        "Modelica.Fluid.Pipes.BaseClasses.QuadraticTurbulent.BaseModel",
        "Modelica.Electrical.Analog.Interfaces.Plug",
        "Types.Axis",
        "semiLinear",
    ];
    for s in starts {
        let mut frontier = vec![s.to_string()];
        let mut steps = 0;
        while !frontier.is_empty() {
            let mut next = Vec::new();
            for n in &frontier {
                for t in early_targets_of(n) {
                    assert_ne!(&t, n);
                    next.push(t);
                }
            }
            frontier = next;
            steps += 1;
            assert!(steps <= 3, "alias chain from {} is too long", s);
        }
    }
    assert_eq!(
        early_targets_of("Magnetic.FluxTubes.Interfaces.Source"),
        vec!["Modelica.Magnetic.FluxTubes.Interfaces.Source".to_string()]
    );
    assert_eq!(
        early_targets_of("Modelica.Magnetic.FluxTubes.Interfaces.Source"),
        vec!["Modelica.Magnetic.QuasiStatic.FluxTubes.Interfaces.Source".to_string()]
    );
    assert!(early_targets_of("Modelica.Magnetic.QuasiStatic.FluxTubes.Interfaces.Source").is_empty());
}
