use depdiff::manifest::{
    CargoDependencyValue, CargoFile, CargoWorkspace, DependencyTable, DetailedCargoDependency,
    File, GitCargoDependency,
};

fn text_of(table: &toml::Table, key: &str) -> Option<String> {
    table.get(key).and_then(|value| value.as_str()).map(String::from)
}

fn dependency_value(value: &toml::Value) -> CargoDependencyValue {
    match value {
        toml::Value::String(version) => CargoDependencyValue::Simple(version.clone()),
        toml::Value::Table(table) => {
            let package = text_of(table, "package");
            if let Some(version) = text_of(table, "version") {
                CargoDependencyValue::Detailed(DetailedCargoDependency { version, package })
            } else if let Some(git) = text_of(table, "git") {
                CargoDependencyValue::Git(GitCargoDependency { git, package })
            } else {
                panic!("a dependency table needs a version or a git repository")
            }
        }
        _ => panic!("a dependency is a text or a table"),
    }
}

fn dependency_table(document: &toml::Table, name: &str) -> Option<DependencyTable> {
    let table = document.get(name)?.as_table()?;
    let mut dependencies = DependencyTable::new();
    for (key, value) in table {
        dependencies.insert(key.clone(), dependency_value(value));
    }
    Some(dependencies)
}

fn file_from_str(toml_str: &str) -> File {
    let document: toml::Table = toml::from_str(toml_str).unwrap();
    let workspace = document
        .get("workspace")
        .and_then(|value| value.as_table())
        .map(|table| CargoWorkspace {
            dependencies: dependency_table(table, "dependencies"),
        });
    File::from_cargo_file(CargoFile {
        dependencies: dependency_table(&document, "dependencies"),
        build_dependencies: dependency_table(&document, "build-dependencies"),
        dev_dependencies: dependency_table(&document, "dev-dependencies"),
        workspace,
    })
}

fn example_manifest() -> &'static str {
    r#"[package]
name = "some-example-crate"
version = "0.1.0"
authors = ["Rust Coder <name@example.com>"]
edition = "2021"
license = "BSD-3-Clause"
repository = "https://github.com/example/example-repo"
rust-version = "1.74"
description = "An example Rust app"

[dependencies]
ahash = "0.8.11"
clap = { version = "4.5.23", features = ["derive"] }
clap-verbosity-flag = "3.0.1"
config = "0.14.1"
env_logger = "0.11.5"
git2 = "0.19.0"
log = "0.4.22"
serde = { version = "1.0.215", features = ["derive"] }

[dependencies.sqlx]
version = "0.8.2"
default-features = false
features = ["any", "chrono", "macros", "migrate", "postgres", "runtime-tokio-rustls", "uuid"]

[dev-dependencies]
assert_fs = "1.1.2"
trycmd = "0.15.8"
"#
}

#[test]
fn print_changes_versus_previous_version_advises_when_there_are_no_changes() {
    let cargo_toml_file = file_from_str(example_manifest());

    // act
    let output = cargo_toml_file
        .print_changes_versus_previous_version(&cargo_toml_file)
        .unwrap();

    // assert
    assert_eq!(output, String::from("\u{1f9f9} No changes detected.\n"));
}

#[test]
fn print_dependency_changes_return_changes() {
    // arrange
    let updated_cargo_toml_content = r#"[package]
name = "some-example-crate"
version = "0.1.0"
authors = ["Rust Coder <name@example.com>"]
edition = "2021"
license = "BSD-3-Clause"
repository = "https://github.com/example/example-repo"
rust-version = "1.74"
description = "An example Rust app"

[dependencies]
ahash = "0.8.11"
clap = { version = "4.5.23", features = ["derive"] }
clap-verbosity-flag = "3.0.1"
config = "0.14.1"
env_logger = "0.11.5"
git2 = "0.19.0"
log = "0.4.22"
serde = { version = "1.0.215", features = ["derive"] }

[dependencies.sqlx]
version = "0.8.2"
default-features = false
features = ["any", "chrono", "macros", "migrate", "postgres", "runtime-tokio-rustls", "uuid"]

[dev-dependencies]
assert_fs = "1.1.2"
trycmd = "0.15.8"
"#;
    let earlier_cargo_toml_content = r#"[package]
name = "some-example-crate"
version = "0.1.0"
authors = ["Rust Coder <name@example.com>"]
edition = "2021"
license = "BSD-3-Clause"
repository = "https://github.com/example/example-repo"
rust-version = "1.74"
description = "An example Rust app"

[dependencies]
ahash = "0.8.10"
clap = { version = "4.5.23", features = ["derive"] }
clap-verbosity-flag = "3.0.1"
config = "0.14.1"
env_logger = "0.11.5"
git2 = "0.19.0"
log = "0.4.22"
serde = { version = "1.0.210", features = ["derive"] }

[dependencies.sqlx]
version = "0.8.2"
default-features = false
features = ["any", "chrono", "macros", "migrate", "postgres", "runtime-tokio-rustls", "uuid"]

[dev-dependencies]
assert_fs = "1.1.2"
trycmd = "0.15.8"
"#;

    let updated_cargo_toml = file_from_str(updated_cargo_toml_content);
    let earlier_cargo_toml = file_from_str(earlier_cargo_toml_content);
    // act
    let output = updated_cargo_toml
        .print_changes_versus_previous_version(&earlier_cargo_toml)
        .unwrap();

    // assert
    assert_eq!(
        output,
        String::from(
            "📦 bump ahash from 0.8.10 to 0.8.11
🔧 bump serde from 1.0.210 to 1.0.215
"
        )
    );
}

#[test]
fn print_dependency_changes_displays_version_drop() {
    // arrange
    let updated_cargo_toml_content = r#"[package]
name = "some-example-crate"
version = "0.1.0"
authors = ["Rust Coder <name@example.com>"]
edition = "2021"
license = "BSD-3-Clause"
repository = "https://github.com/example/example-repo"
rust-version = "1.74"
description = "An example Rust app"

[dependencies]
ahash = "0.8.11"
clap = { version = "4.5.23", features = ["derive"] }
clap-verbosity-flag = "3.0.1"
config = "0.14.1"
env_logger = "0.11.5"
git2 = "0.19.0"
log = "0.4.22"
serde = { version = "1.0.210", features = ["derive"] }

[dependencies.sqlx]
version = "0.8.2"
default-features = false
features = ["any", "chrono", "macros", "migrate", "postgres", "runtime-tokio-rustls", "uuid"]

[dev-dependencies]
assert_fs = "1.1.2"
trycmd = "0.15.8"
"#;
    let earlier_cargo_toml_content = r#"[package]
name = "some-example-crate"
version = "0.1.0"
authors = ["Rust Coder <name@example.com>"]
edition = "2021"
license = "BSD-3-Clause"
repository = "https://github.com/example/example-repo"
rust-version = "1.74"
description = "An example Rust app"

[dependencies]
ahash = "0.8.10"
clap = { version = "4.5.23", features = ["derive"] }
clap-verbosity-flag = "3.0.1"
config = "0.14.1"
env_logger = "0.11.5"
git2 = "0.19.0"
log = "0.4.22"
serde = { version = "1.0.215", features = ["derive"] }

[dependencies.sqlx]
version = "0.8.2"
default-features = false
features = ["any", "chrono", "macros", "migrate", "postgres", "runtime-tokio-rustls", "uuid"]

[dev-dependencies]
assert_fs = "1.1.2"
trycmd = "0.15.8"
"#;

    let updated_cargo_toml = file_from_str(updated_cargo_toml_content);
    let earlier_cargo_toml = file_from_str(earlier_cargo_toml_content);

    // act
    let output = updated_cargo_toml
        .print_changes_versus_previous_version(&earlier_cargo_toml)
        .unwrap();

    // assert
    assert_eq!(
        output,
        String::from(
            "📦 bump ahash from 0.8.10 to 0.8.11\n🔧 drop serde from 1.0.215 to 1.0.210\n"
        )
    );
}

#[test]
fn print_dependency_changes_displays_unclear_changes() {
    // arrange
    let updated_cargo_toml_content = r#"[package]
name = "some-example-crate"
version = "0.1.0"
authors = ["Rust Coder <name@example.com>"]
edition = "2021"
license = "BSD-3-Clause"
repository = "https://github.com/example/example-repo"
rust-version = "1.74"
description = "An example Rust app"

[dependencies]
ahash = "0.8.11"
clap = { version = "4.5.23", features = ["derive"] }
clap-verbosity-flag = "3.0.1"
config = "0.14.1"
env_logger = "0.11.5"
git2 = "0.19.0"
log = "0.4.22"
serde = { version = "1", features = ["derive"] }

[dependencies.sqlx]
version = "0.8.2"
default-features = false
features = ["any", "chrono", "macros", "migrate", "postgres", "runtime-tokio-rustls", "uuid"]

[dev-dependencies]
assert_fs = "1.1.2"
trycmd = "0.15.8"
"#;
    let earlier_cargo_toml_content = r#"[package]
name = "some-example-crate"
version = "0.1.0"
authors = ["Rust Coder <name@example.com>"]
edition = "2021"
license = "BSD-3-Clause"
repository = "https://github.com/example/example-repo"
rust-version = "1.74"
description = "An example Rust app"

[dependencies]
ahash = "0.8.10"
clap = { version = "4.5.23", features = ["derive"] }
clap-verbosity-flag = "3.0.1"
config = "0.14.1"
env_logger = "0.11.5"
git2 = "0.19.0"
log = "0.4.22"
serde = { version = "1.0.215", features = ["derive"] }

[dependencies.sqlx]
version = "0.8.2"
default-features = false
features = ["any", "chrono", "macros", "migrate", "postgres", "runtime-tokio-rustls", "uuid"]

[dev-dependencies]
assert_fs = "1.1.2"
trycmd = "0.15.8"
"#;

    let updated_cargo_toml = file_from_str(updated_cargo_toml_content);
    let earlier_cargo_toml = file_from_str(earlier_cargo_toml_content);

    // act
    let output = updated_cargo_toml
        .print_changes_versus_previous_version(&earlier_cargo_toml)
        .unwrap();

    // assert
    assert_eq!(
        output,
        String::from("📦 bump ahash from 0.8.10 to 0.8.11\n🤷 drop serde from 1.0.215 to 1\n")
    );
}

#[test]
fn print_dependency_displays_additions_and_removals() {
    // arrange
    let updated_cargo_toml_content = r#"[package]
name = "some-example-crate"
version = "0.1.0"
authors = ["Rust Coder <name@example.com>"]
edition = "2021"
license = "BSD-3-Clause"
repository = "https://github.com/example/example-repo"
rust-version = "1.74"
description = "An example Rust app"

[dependencies]
ahash = "0.8.11"
clap = { version = "4.5.23", features = ["derive"] }
clap-verbosity-flag = "3.0.1"
config = "0.14.1"
env_logger = "0.11.5"
git2 = "0.19.0"
log = "0.4.22"
serde = { version = "1", features = ["derive"] }

[dependencies.sqlx]
version = "0.8.2"
default-features = false
features = ["any", "chrono", "macros", "migrate", "postgres", "runtime-tokio-rustls", "uuid"]

[dev-dependencies]
assert_fs = "1.1.2"
float-cmp = "0.10"
proptest = "1.6.0"
trycmd = "0.14"

[build-dependencies]
anyhow = "1.0.95"
fs_extra = "1.3.0"
glob = "0.3.1"
"#;
    let earlier_cargo_toml_content = r#"[package]
name = "some-example-crate"
version = "0.1.0"
authors = ["Rust Coder <name@example.com>"]
edition = "2021"
license = "BSD-3-Clause"
repository = "https://github.com/example/example-repo"
rust-version = "1.74"
description = "An example Rust app"

[dependencies]
ahash = "0.8.10"
clap = { version = "4.5.23", features = ["derive"] }
clap-verbosity-flag = "3.0.1"
config = "0.14.1"
env_logger = "0.11.5"
git2 = "0.19.0"
log = "0.4.22"
image = "0.25.5"

[dependencies.sqlx]
version = "0.8.2"
default-features = false
features = ["any", "chrono", "macros", "migrate", "postgres", "runtime-tokio-rustls", "uuid"]

[dev-dependencies]
assert_fs = "0"
float-cmp = "0.10.0"
trycmd = "0.15.8"
wiremock = "0.6.2"
"#;

    let updated_cargo_toml = file_from_str(updated_cargo_toml_content);
    let earlier_cargo_toml = file_from_str(earlier_cargo_toml_content);

    // act
    let output = updated_cargo_toml
        .print_changes_versus_previous_version(&earlier_cargo_toml)
        .unwrap();

    // assert
    assert_eq!(
        output,
        String::from(
            "📦 bump ahash from 0.8.10 to 0.8.11\n✨ add serde 1\n🗑\u{fe0f} remove image 0.25.5\n\
                    ❗ bump assert_fs (🖥\u{fe0f} dev-dependencies) from 0 to 1.1.2\n\
                    ✨ add proptest (🖥\u{fe0f} dev-dependencies) 1.6.0\n\
                    ❗ drop trycmd (🖥\u{fe0f} dev-dependencies) from 0.15.8 to 0.14\n\
                    🗑\u{fe0f} remove wiremock (🖥\u{fe0f} dev-dependencies) 0.6.2\n\
                    ✨ add anyhow (🧱 build-dependencies) 1.0.95\n\
                    ✨ add fs_extra (🧱 build-dependencies) 1.3.0\n\
                    ✨ add glob (🧱 build-dependencies) 0.3.1\n"
        )
    );
}

#[test]
fn print_dependency_handles_build_dependency_removal() {
    // arrange
    let updated_cargo_toml_content = r#"[package]
name = "some-example-crate"
version = "0.1.0"
authors = ["Rust Coder <name@example.com>"]
edition = "2021"
license = "BSD-3-Clause"
repository = "https://github.com/example/example-repo"
rust-version = "1.74"
description = "An example Rust app"

[dependencies]
ahash = "0.8.11"
clap = { version = "4.5.23", features = ["derive"] }
clap-verbosity-flag = "3.0.1"
config = "0.14.1"
env_logger = "0.11.5"
git2 = "0.19.0"
log = "0.4.22"
serde = { version = "1", features = ["derive"] }

[dev-dependencies]
assert_fs = "1.1.2"
float-cmp = "0.10"
proptest = "1.6.0"
trycmd = "0.14"

"#;
    let earlier_cargo_toml_content = r#"[package]
name = "some-example-crate"
version = "0.1.0"
authors = ["Rust Coder <name@example.com>"]
edition = "2021"
license = "BSD-3-Clause"
repository = "https://github.com/example/example-repo"
rust-version = "1.74"
description = "An example Rust app"

[dependencies]
ahash = "0.8.11"
clap = { version = "4.5.23", features = ["derive"] }
clap-verbosity-flag = "3.0.1"
config = "0.14.1"
env_logger = "0.11.5"
git2 = "0.19.0"
log = "0.4.22"
serde = { version = "1", features = ["derive"] }

[dev-dependencies]
assert_fs = "1.1.2"
float-cmp = "0.10"
proptest = "1.6.0"
trycmd = "0.14"

[build-dependencies]
anyhow = "1.0.95"
fs_extra = "1.3.0"
glob = "0.3.1"
"#;

    let updated_cargo_toml = file_from_str(updated_cargo_toml_content);
    let earlier_cargo_toml = file_from_str(earlier_cargo_toml_content);

    // act
    let output = updated_cargo_toml
        .print_changes_versus_previous_version(&earlier_cargo_toml)
        .unwrap();

    // assert
    assert_eq!(
        output,
        String::from(
            "🗑\u{fe0f} remove anyhow (🧱 build-dependencies) 1.0.95\n\
                🗑\u{fe0f} remove fs_extra (🧱 build-dependencies) 1.3.0\n\
                🗑\u{fe0f} remove glob (🧱 build-dependencies) 0.3.1\n"
        )
    );
}

#[test]
fn print_dependency_handles_workspace_dependency_changes() {
    // arrange
    let updated_cargo_toml_content = r#"[workspace]
resolver = "2"
members = [
  "crates/number-one",
  "crates/data"
]

[workspace.package]
version = "0.1.0"
authors = ["Rust Coder <name@example.com>"]
edition = "2021"
license = "BSD-3-Clause"
repository = "https://github.com/example/example-repo"
rust-version = "1.74"
description = "An example Rust app"

[workspace.dependencies]
ahash = "0.8.11"
serde = { version = "1", features = ["derive"] }
"#;
    let earlier_cargo_toml_content = r#"[workspace]
resolver = "2"
members = [
  "crates/number-one",
  "crates/data"
]

[workspace.package]
version = "0.1.0"
authors = ["Rust Coder <name@example.com>"]
edition = "2021"
license = "BSD-3-Clause"
repository = "https://github.com/example/example-repo"
rust-version = "1.74"
description = "An example Rust app"

[workspace.dependencies]
ahash = "0.7"
serde = { version = "0", features = ["derive"] }
"#;

    let updated_cargo_toml = file_from_str(updated_cargo_toml_content);
    let earlier_cargo_toml = file_from_str(earlier_cargo_toml_content);

    // act
    let output = updated_cargo_toml
        .print_changes_versus_previous_version(&earlier_cargo_toml)
        .unwrap();

    // assert
    assert_eq!(
        output,
        String::from(
            "❗ bump ahash (🗄\u{fe0f} workspace-dependencies) from 0.7 to 0.8.11\n\
                ❗ bump serde (🗄\u{fe0f} workspace-dependencies) from 0 to 1\n"
        )
    );
}

#[test]
fn get_changes_from_current_dependencies_emits_package_field_for_name_when_present() {
    // arrange
    let updated_cargo_toml_content = r#"[package]
name = "some-example-crate"
version = "0.1.0"
authors = ["Rust Coder <name@example.com>"]
edition = "2024"
license = "BSD-3-Clause"
repository = "https://github.com/example/example-repo"
rust-version = "1.75"
description = "An example Rust app"

[dependencies]
getrandom = { version = "0.3.2", features = ["wasm_js"] }
getrandom2 = { package = "getrandom", version = "0.2.15", features = ["js"] }
"#;

    let earlier_cargo_toml_content = r#"[package]
name = "some-example-crate"
version = "0.1.0"
authors = ["Rust Coder <name@example.com>"]
edition = "2024"
license = "BSD-3-Clause"
repository = "https://github.com/example/example-repo"
rust-version = "1.75"
description = "An example Rust app"

[dependencies]
getrandom = { version = "0.3", features = ["wasm_js"] }
getrandom2 = { package = "getrandom", version = "0.2.1", features = ["js"] }
"#;
    // assert
    let updated_cargo_toml = file_from_str(updated_cargo_toml_content);
    let earlier_cargo_toml = file_from_str(earlier_cargo_toml_content);

    // act
    let output = updated_cargo_toml
        .print_changes_versus_previous_version(&earlier_cargo_toml)
        .unwrap();

    // assert
    assert_eq!(
        output,
        String::from(
            "🤷 bump getrandom from 0.3 to 0.3.2\n📦 bump getrandom from 0.2.1 to 0.2.15\n"
        )
    );
}

#[test]
fn get_changes_from_current_dependencies_emits_package_field_for_name_when_present_and_tracks_changed_alias() {
    // arrange
    let updated_cargo_toml_content = r#"[package]
name = "some-example-crate"
version = "0.1.0"
authors = ["Rust Coder <name@example.com>"]
edition = "2024"
license = "BSD-3-Clause"
repository = "https://github.com/example/example-repo"
rust-version = "1.75"
description = "An example Rust app"

[dependencies]
getrandom = { version = "0.3.2", features = ["wasm_js"] }
getrandom2 = { package = "getrandom", version = "0.2.15", features = ["js"] }
"#;

    let earlier_cargo_toml_content = r#"[package]
name = "some-example-crate"
version = "0.1.0"
authors = ["Rust Coder <name@example.com>"]
edition = "2024"
license = "BSD-3-Clause"
repository = "https://github.com/example/example-repo"
rust-version = "1.75"
description = "An example Rust app"

[dependencies]
getrandom_current = { version = "0.3", features = ["wasm_js"] }
getrandom_previous = { package = "getrandom", version = "0.2.1", features = ["js"] }
"#;
    // assert
    let updated_cargo_toml = file_from_str(updated_cargo_toml_content);
    let earlier_cargo_toml = file_from_str(earlier_cargo_toml_content);

    // act
    let output = updated_cargo_toml
        .print_changes_versus_previous_version(&earlier_cargo_toml)
        .unwrap();

    // assert
    assert_eq!(
        output,
        String::from(
            "✨ add getrandom 0.3.2\n✨ add getrandom 0.2.15\n🗑\u{fe0f} remove getrandom_current 0.3\n🗑\u{fe0f} remove getrandom 0.2.1\n"
        )
    );
}

#[test]
fn get_changes_from_current_dependencies_reports_addition_and_removal_of_git_dependencies() {
    // arrange
    let updated_cargo_toml_content = r#"[package]
name = "gpui-tryout"
version = "0.1.0"
edition = "2021"

[dependencies]
gpui = { git = "https://github.com/zed-industries/zed", rev = "f1af2a4a58b4e48a0ce442181120859cd4df4b30" } # v0.174.4
http_client = { git = "https://github.com/zed-industries/zed", rev = "f1af2a4a58b4e48a0ce442181120859cd4df4b30" } # v0.174.4
"#;

    let earlier_cargo_toml_content = r#"[package]
name = "gpui-tryout"
version = "0.1.0"
edition = "2021"

[dependencies]
gpui = { git = "https://github.com/zed-industries/zed", rev = "a3f070195111f8d80111cd73b8a26d7aa2228040" } # v0.171.6
reqwest_client = { git = "https://github.com/zed-industries/zed", rev = "a3f070195111f8d80111cd73b8a26d7aa2228040" } # v0.171.6
"#;
    // assert
    let updated_cargo_toml = file_from_str(updated_cargo_toml_content);
    let earlier_cargo_toml = file_from_str(earlier_cargo_toml_content);

    // act
    let output = updated_cargo_toml
        .print_changes_versus_previous_version(&earlier_cargo_toml)
        .unwrap();

    // assert
    assert_eq!(
        output,
        String::from("✨ add http_client 0\n🗑\u{fe0f} remove reqwest_client 0\n")
    );
}
