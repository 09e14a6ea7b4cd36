use vectis::android_setup::{
    inject_ndk_version, java_home_of, local_properties, ndk_lookup, pick_ndk, with_java_home,
    wrapper_copies, wrapper_scratch, wrapper_step, NdkLookup,
};
use vectis::error::VectisError;

fn names(v: &[&str]) -> Vec<String> {
    v.iter().map(|s| (*s).to_string()).collect()
}

#[test]
fn pinned_ndk_wins_over_the_installed_ones() {
    match ndk_lookup(Some("27.1.12297006"), Some("/sdk")).unwrap() {
        NdkLookup::Pinned(v) => assert_eq!(v, "27.1.12297006"),
        other => panic!("unexpected {other:?}"),
    }
    match ndk_lookup(None, Some("/sdk")).unwrap() {
        NdkLookup::Scan(root) => assert_eq!(root, "/sdk/ndk"),
        other => panic!("unexpected {other:?}"),
    }
    match ndk_lookup(None, None) {
        Err(VectisError::Internal { message }) => assert!(message.contains("ANDROID_HOME is unset"), "{message}"),
        other => panic!("unexpected {other:?}"),
    }
}

#[test]
fn newest_ndk_is_chosen_by_numeric_components() {
    let found = names(&["25.1.8937393", "27.1.12297006", "26.3.11579264", "9.9.9"]);
    assert_eq!(pick_ndk("/sdk/ndk", Ok(found)).unwrap(), "27.1.12297006");
    // A longer key with the same prefix is newer; a non-numeric part counts as 0.
    assert_eq!(pick_ndk("/sdk/ndk", Ok(names(&["27.1", "27.1.0", "27.x"]))).unwrap(), "27.1.0");
    // Of names with equal keys, the last listed is taken.
    assert_eq!(pick_ndk("/sdk/ndk", Ok(names(&["26.01", "26.1", "25"]))).unwrap(), "26.1");
}

#[test]
fn empty_or_unlistable_ndk_dir_is_an_error() {
    match pick_ndk("/sdk/ndk", Ok(Vec::new())) {
        Err(VectisError::Internal { message }) => assert_eq!(
            message,
            "no NDK installs found under /sdk/ndk (prereq check should have caught this)"
        ),
        other => panic!("unexpected {other:?}"),
    }
    match pick_ndk("/sdk/ndk", Err("permission denied".into())) {
        Err(VectisError::Io(message)) => assert_eq!(message, "permission denied"),
        other => panic!("unexpected {other:?}"),
    }
}

#[test]
fn ndk_version_replaces_every_placeholder() {
    let body = "ndkVersion = \"__ANDROID_NDK_VERSION__\"\n// __ANDROID_NDK_VERSION__\n";
    assert_eq!(inject_ndk_version(body, "27.1.12297006"), "ndkVersion = \"27.1.12297006\"\n// 27.1.12297006\n");
}

#[test]
fn local_properties_names_the_sdk() {
    assert_eq!(local_properties(Some("/opt/android")).unwrap(), "sdk.dir=/opt/android\n");
    assert!(matches!(local_properties(None), Err(VectisError::Internal { .. })));
}

#[test]
fn java_home_comes_from_a_successful_non_blank_answer() {
    assert_eq!(
        java_home_of(Some((true, "  /Library/Java/jdk-21/Contents/Home\n".into()))),
        Some("/Library/Java/jdk-21/Contents/Home".to_string())
    );
    assert_eq!(java_home_of(Some((true, " \n".into()))), None);
    assert_eq!(java_home_of(Some((false, "/jdk".into()))), None);
    assert_eq!(java_home_of(None), None);
}

#[test]
fn java_home_is_appended_on_a_line_of_its_own() {
    assert_eq!(with_java_home("a=b", "/jdk"), "a=b\norg.gradle.java.home=/jdk\n");
    assert_eq!(with_java_home("a=b\n", "/jdk"), "a=b\norg.gradle.java.home=/jdk\n");
    assert_eq!(with_java_home("", "/jdk"), "\norg.gradle.java.home=/jdk\n");
}

#[test]
fn wrapper_is_bootstrapped_in_a_scratch_dir_and_copied_over() {
    let scratch = wrapper_scratch("/tmp", 4242);
    assert_eq!(scratch, "/tmp/vectis-gradle-wrapper-bootstrap-4242");
    let step = wrapper_step(&scratch, "8.13");
    assert_eq!(step.name, "gradle wrapper");
    assert_eq!(step.program, "gradle");
    assert_eq!(step.args, vec!["wrapper", "--gradle-version", "8.13"]);
    assert_eq!(step.dir, scratch);
    let copies = wrapper_copies(&scratch, "/p/Android");
    assert_eq!(copies.len(), 4);
    assert_eq!(copies[0], (format!("{scratch}/gradlew"), "/p/Android/gradlew".to_string()));
    assert_eq!(
        copies[3],
        (
            format!("{scratch}/gradle/wrapper/gradle-wrapper.properties"),
            "/p/Android/gradle/wrapper/gradle-wrapper.properties".to_string()
        )
    );
}
