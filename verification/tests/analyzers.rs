use license_checkr::analyzer::dotnet::{parse_packages_config, parse_paket_lock,
    parse_project_file};
use license_checkr::analyzer::java::{parse_build_gradle, parse_pom_xml};
use license_checkr::analyzer::node::{lock_package_to_dep, parse_package_json,
    parse_package_lock_json, parse_yarn_lock, read_license_from_package_json, NodeAnalyzer};
use license_checkr::analyzer::python::{parse_pipfile_lock, parse_pyproject_toml,
    parse_requirements_txt, PythonAnalyzer};
use license_checkr::analyzer::rust::{license_from_manifest, parse_cargo_lock};

#[test]
fn test_parse_csproj() {
    let xml = r#"<Project Sdk="Microsoft.NET.Sdk">
  <ItemGroup>
    <PackageReference Include="Newtonsoft.Json" Version="13.0.1" />
    <PackageReference Include="Serilog" Version="2.12.0" />
  </ItemGroup>
</Project>"#;
    let deps = parse_project_file(xml);
    assert_eq!(deps.len(), 2);
    assert_eq!(deps[0].name, "Newtonsoft.Json");
    assert_eq!(deps[0].version, "13.0.1");
    assert_eq!(deps[1].name, "Serilog");
    assert_eq!(deps[1].version, "2.12.0");
}

#[test]
fn test_parse_packages_config() {
    let xml = r#"<?xml version="1.0" encoding="utf-8"?>
<packages>
  <package id="Newtonsoft.Json" version="13.0.1" targetFramework="net452" />
  <package id="NUnit" version="3.13.3" targetFramework="net452" />
</packages>"#;
    let deps = parse_packages_config(xml);
    assert_eq!(deps.len(), 2);
    assert_eq!(deps[0].name, "Newtonsoft.Json");
    assert_eq!(deps[0].version, "13.0.1");
}

#[test]
fn test_parse_paket_lock() {
    let content = r#"REFERENCES

NUGET
  remote: https://api.nuget.org/v3/index.json
    Newtonsoft.Json (13.0.1)
    Serilog (2.12.0)

GITHUB
  remote: some/repo
    file.fs
"#;
    let deps = parse_paket_lock(content);
    assert_eq!(deps.len(), 2);
    assert_eq!(deps[0].name, "Newtonsoft.Json");
    assert_eq!(deps[1].name, "Serilog");
}

#[test]
fn test_parse_pom_xml() {
    let xml = r#"<?xml version="1.0"?>
<project>
  <dependencies>
    <dependency>
      <groupId>org.apache.commons</groupId>
      <artifactId>commons-lang3</artifactId>
      <version>3.12.0</version>
    </dependency>
    <dependency>
      <groupId>junit</groupId>
      <artifactId>junit</artifactId>
      <version>4.13.2</version>
    </dependency>
  </dependencies>
</project>"#;
    let deps = parse_pom_xml(xml);
    assert_eq!(deps.len(), 2);
    assert_eq!(deps[0].name, "org.apache.commons:commons-lang3");
    assert_eq!(deps[0].version, "3.12.0");
}

#[test]
fn test_parse_build_gradle() {
    let content = r#"
dependencies {
    implementation 'org.springframework:spring-core:5.3.23'
    implementation "com.google.guava:guava:31.1-jre"
    testImplementation 'junit:junit:4.13.2'
}
"#;
    let deps = parse_build_gradle(content);
    assert_eq!(deps.len(), 3);
}

#[test]
fn test_parse_build_gradle_map_form() {
    let content = "implementation group: 'com.example', name: 'widget', version: '1.0'\n";
    let deps = parse_build_gradle(content);
    assert_eq!(deps.len(), 1);
    assert_eq!(deps[0].name, "com.example:widget");
    assert_eq!(deps[0].version, "1.0");
}

#[test]
fn test_parse_package_json() {
    let json = r#"{
  "name": "my-app",
  "dependencies": {
    "express": "^4.18.2",
    "lodash": "^4.17.21"
  },
  "devDependencies": {
    "jest": "^29.0.0"
  }
}"#;
    let deps = parse_package_json(json);
    assert_eq!(deps.len(), 3);
}

#[test]
fn test_parse_package_lock_json() {
    let json = r#"{
  "name": "my-app",
  "lockfileVersion": 3,
  "packages": {
    "": { "name": "my-app", "version": "1.0.0" },
    "node_modules/express": {
      "version": "4.18.2",
      "license": "MIT"
    },
    "node_modules/lodash": {
      "version": "4.17.21",
      "license": "MIT"
    }
  }
}"#;
    let packages = parse_package_lock_json(json);
    assert_eq!(packages.len(), 2);
    let deps: Vec<_> = packages.iter().map(|p| lock_package_to_dep(p, None)).collect();
    assert_eq!(deps[0].name, "express");
    assert_eq!(deps[0].license_raw, Some("MIT".to_string()));
}

#[test]
fn test_parse_requirements_txt() {
    let content = "# comment\nrequests==2.28.1\nflask>=2.0.0\nnumpy==1.24.0 ; python_version >= '3.8'\n";
    let deps = parse_requirements_txt(content);
    assert_eq!(deps.len(), 2);
    assert_eq!(deps[0].name, "requests");
    assert_eq!(deps[0].version, "2.28.1");
    assert_eq!(deps[1].name, "numpy");
}

#[test]
fn test_parse_cargo_lock() {
    let content = r#"
version = 3

[[package]]
name = "my-app"
version = "0.1.0"

[[package]]
name = "serde"
version = "1.0.150"
source = "registry+https://github.com/rust-lang/crates.io-index"
checksum = "abc123"

[[package]]
name = "tokio"
version = "1.25.0"
source = "registry+https://github.com/rust-lang/crates.io-index"
checksum = "def456"
"#;
    let external = parse_cargo_lock(content);
    assert_eq!(external.len(), 2);
    assert_eq!(external[0].0, "serde");
    assert_eq!(external[1].0, "tokio");
}

#[test]
fn test_extract_license_from_pom() {
    let pom = r#"<?xml version="1.0"?>
<project>
  <licenses>
    <license>
      <name>Apache License, Version 2.0</name>
      <url>https://www.apache.org/licenses/LICENSE-2.0</url>
    </license>
  </licenses>
</project>"#;
    let license = license_checkr::registry::maven::extract_license_from_pom(pom);
    assert_eq!(license, Some("Apache License, Version 2.0".to_string()));
}

#[test]
fn test_parse_yarn_lock() {
    let content = "# yarn lockfile v1\n\nexpress@^4.18.2:\n  version \"4.18.2\"\n  resolved \"https://registry.yarnpkg.com/express\"\n\n\"@scope/pkg@^1.0.0\":\n  version \"1.2.3\"\n";
    let deps = parse_yarn_lock(content);
    assert_eq!(deps.len(), 2);
    assert_eq!(deps[0].name, "express");
    assert_eq!(deps[0].version, "4.18.2");
    assert_eq!(deps[1].name, "@scope/pkg");
    assert_eq!(deps[1].version, "1.2.3");
}

#[test]
fn test_parse_pipfile_lock() {
    let json = r#"{
  "default": {
    "requests": { "version": "==2.28.1" },
    "urllib3": { "version": "==1.26.0" }
  },
  "develop": {
    "pytest": { "version": "==7.2.0" }
  }
}"#;
    let deps = parse_pipfile_lock(json);
    assert_eq!(deps.len(), 3);
    assert_eq!(deps[0].version, "2.28.1");
}

#[test]
fn test_parse_pyproject_toml() {
    let content = "[project]\nname = \"demo\"\ndependencies = [\"requests==2.28.1\", \"flask\"]\n";
    let deps = parse_pyproject_toml(content);
    assert_eq!(deps.len(), 2);
    assert_eq!(deps[0].name, "requests");
    assert_eq!(deps[0].version, "2.28.1");
    assert_eq!(deps[1].name, "flask");
    assert_eq!(deps[1].version, "*");
}

#[test]
fn test_python_analyzer_dedups_case_insensitively() {
    let analyzer = PythonAnalyzer::new();
    let requirements = "Requests==2.28.1\n";
    let pipfile = r#"{ "default": { "requests": { "version": "==2.30.0" } } }"#;
    let deps = analyzer.analyze_contents(Some(pipfile), Some(requirements), None);
    // the pinned Pipfile entry wins; the requirements repeat is dropped
    assert_eq!(deps.len(), 1);
    assert_eq!(deps[0].name, "requests");
    assert_eq!(deps[0].version, "2.30.0");
}

#[test]
fn test_node_analyzer_prefers_lock_files() {
    let analyzer = NodeAnalyzer::new();
    let pkg = parse_package_json(r#"{ "dependencies": { "express": "^4.18.2" } }"#);
    let lock = parse_package_lock_json(
        r#"{ "packages": { "node_modules/express": { "version": "4.18.2" } } }"#,
    );
    let lock_deps: Vec<_> = lock.iter().map(|p| lock_package_to_dep(p, None)).collect();
    let deps = analyzer.assemble(lock_deps, Vec::new(), pkg.clone());
    assert_eq!(deps.len(), 1);
    assert_eq!(deps[0].version, "4.18.2");
    // with no lock data the declared ranges are used
    let fallback = analyzer.assemble(Vec::new(), Vec::new(), pkg);
    assert_eq!(fallback.len(), 1);
    assert_eq!(fallback[0].version, "4.18.2");
}

#[test]
fn test_read_license_from_package_json() {
    let json = r#"{ "name": "express", "license": "MIT" }"#;
    assert_eq!(read_license_from_package_json(json), Some("MIT".to_string()));
}

#[test]
fn test_license_from_cached_manifest() {
    let manifest = "[package]\nname = \"serde\"\nlicense = \"MIT OR Apache-2.0\"\n";
    assert_eq!(license_from_manifest(manifest), Some("MIT OR Apache-2.0".to_string()));
}
