use sashiko::paths::{join, parent};
use sashiko::prompt_bundle::{
    complete_marker, find_kernel_severity_guide, install_prompt_bundle, kernel_severity_guide,
    project_prompts_dir, project_prompts_path, prompt_bundle_root, InstallStep, ProjectId,
    PromptBundle, PromptFile,
};
use std::collections::{BTreeMap, BTreeSet};
use std::path::Path;

const PROMPT_BUNDLE_REVISION: &str = "0f3a9c1d";

/// A bundle as the build of the program makes it, with short files.
fn bundle() -> PromptBundle {
    let files = [
        ("kernel/review-core.md", "# Review protocol\n"),
        (
            "kernel/severity.md",
            "# Severity Levels\n\n## Critical\nMemory corruption.\n\n## High\nDeadlocks.\n",
        ),
        ("sashiko/review-core.md", "# Review protocol\n"),
        ("sashiko/severity.md", "# Severity Levels\n"),
        ("sashiko/false-positive-guide.md", "# False positives\n"),
        ("sashiko/prompt-injection.md", "# Prompt injection\n"),
        ("sashiko/github-summary-template.md", "# Summary\n"),
        (
            "sashiko/subsystem/subsystem.md",
            "# Subsystems\n\n\
             | Component | Triggers | File |\n\
             |-----------|----------|------|\n\
             | Providers | src/ai/ | ai-providers.md |\n\
             | Errors | anyhow | error-handling.md |\n",
        ),
        ("sashiko/subsystem/ai-providers.md", "# Reviewing changes to `src/ai/`\n"),
        ("sashiko/patterns/error-handling.md", "# Error handling\n"),
    ];
    PromptBundle {
        revision: PROMPT_BUNDLE_REVISION.to_string(),
        files: files
            .iter()
            .map(|(path, text)| PromptFile {
                path: path.to_string(),
                contents: text.as_bytes().to_vec(),
            })
            .collect(),
    }
}

#[test]
fn test_prompt_bundle_contains_kernel_review_core() {
    assert!(bundle().find("kernel/review-core.md").is_some());
}

#[test]
fn test_kernel_severity_guide_not_empty() {
    let bundle = bundle();
    let guide = kernel_severity_guide(&bundle);
    assert!(guide.contains("# Severity Levels"));
    assert!(guide.contains("## Critical"));
    assert!(guide.contains("## High"));
}

#[test]
fn test_prompt_bundle_root_uses_xdg_data_home() {
    let data_home = Path::new("/tmp/xdg-data-home");
    assert_eq!(
        Path::new(&prompt_bundle_root(data_home.to_str().unwrap(), &bundle())),
        data_home
            .join("sashiko/prompts")
            .join(PROMPT_BUNDLE_REVISION)
    );
}

#[test]
fn test_sashiko_prompt_bundle_integrity() {
    let bundle = bundle();
    let required_framing = [
        "sashiko/review-core.md",
        "sashiko/severity.md",
        "sashiko/false-positive-guide.md",
        "sashiko/prompt-injection.md",
        "sashiko/github-summary-template.md",
        "sashiko/subsystem/subsystem.md",
    ];
    for path in required_framing {
        assert!(
            bundle.find(path).is_some(),
            "missing framing file in bundle: {path}"
        );
    }

    let subsystem_index = bundle
        .find("sashiko/subsystem/subsystem.md")
        .and_then(|bytes| std::str::from_utf8(bytes).ok())
        .expect("sashiko/subsystem/subsystem.md must be valid UTF-8");

    let mut referenced_guides = Vec::new();
    for line in subsystem_index.lines() {
        let trimmed = line.trim();
        if trimmed.starts_with('|') && trimmed.ends_with('|') {
            let cols: Vec<&str> = trimmed.split('|').map(str::trim).collect();
            // Markdown table row: ["", "Component/Pattern", "Triggers", "File", ""]
            if cols.len() >= 4 {
                let file_col = cols[cols.len() - 2];
                if file_col.ends_with(".md") && !file_col.contains(' ') {
                    referenced_guides.push(file_col);
                }
            }
        }
    }

    assert!(
        !referenced_guides.is_empty(),
        "should parse referenced guides from subsystem.md"
    );

    for guide in referenced_guides {
        let in_subsystem = format!("sashiko/subsystem/{guide}");
        let in_patterns = format!("sashiko/patterns/{guide}");
        let found = bundle.find(&in_subsystem).is_some() || bundle.find(&in_patterns).is_some();
        assert!(
            found,
            "guide {guide} referenced in sashiko/subsystem/subsystem.md not found in bundle under subsystem/ or patterns/"
        );
    }
}

#[test]
fn the_first_file_with_a_path_is_found() {
    let mut bundle = bundle();
    bundle.files.push(PromptFile {
        path: "kernel/severity.md".to_string(),
        contents: vec![0xff],
    });
    assert!(kernel_severity_guide(&bundle).starts_with("# Severity Levels"));
    assert_eq!(bundle.find("kernel/severity.md").unwrap()[0], b'#');
    assert!(bundle.find("kernel/severity").is_none());
    assert!(bundle.find("").is_none());
}

#[test]
fn the_guide_is_decoded() {
    let bundle = PromptBundle {
        revision: "r".to_string(),
        files: vec![PromptFile {
            path: "kernel/severity.md".to_string(),
            contents: vec![0xe2, 0x82, 0xac, 0x21],
        }],
    };
    assert_eq!(kernel_severity_guide(&bundle), "\u{20ac}!");
}

#[test]
fn a_guide_that_is_missing_or_garbled_is_not_found() {
    let mut bundle = bundle();
    assert!(find_kernel_severity_guide(&bundle).unwrap().contains("## High"));
    bundle.files[1].contents.push(0xff);
    assert_eq!(find_kernel_severity_guide(&bundle), None);
    bundle.files.remove(1);
    assert_eq!(find_kernel_severity_guide(&bundle), None);
}

#[test]
fn paths_can_be_relative_to_the_data_home() {
    let bundle = bundle();
    let root = prompt_bundle_root("", &bundle);
    assert_eq!(root, "sashiko/prompts/0f3a9c1d");
    let below = install_prompt_bundle(&bundle, &root, true, false, true);
    let shown_root = prompt_bundle_root("/data", &bundle);
    let shown = install_prompt_bundle(&bundle, &shown_root, true, false, true);
    assert_eq!(below.len(), shown.len());
    for (step, shown) in below.iter().zip(&shown) {
        let path = |step: &InstallStep| match step {
            InstallStep::RemoveTree(path) => path.clone(),
            InstallStep::CreateDir(path) => path.clone(),
            InstallStep::WriteFile(path, _) => path.clone(),
        };
        assert_eq!(join("/data", &path(step)), path(shown));
    }
}

/// All strings over a few telling characters.
fn sample_paths(len: usize) -> Vec<String> {
    let mut all = vec![String::new()];
    let mut last = all.clone();
    for _ in 0..len {
        last = last
            .iter()
            .flat_map(|s| ['/', '.', 'a'].map(|c| format!("{s}{c}")))
            .collect();
        all.extend(last.iter().cloned());
    }
    all
}

#[test]
fn parents_are_those_of_std() {
    for path in sample_paths(8) {
        let expected = Path::new(&path).parent().map(|dir| dir.to_str().unwrap());
        assert_eq!(parent(&path), expected, "{path:?}");
    }
    assert_eq!(parent("/home/\u{e4}/x.md"), Some("/home/\u{e4}"));
}

#[test]
fn joins_are_those_of_std() {
    for base in sample_paths(4) {
        for relative in sample_paths(4) {
            let expected = Path::new(&base).join(&relative);
            assert_eq!(join(&base, &relative), expected.to_str().unwrap());
        }
    }
}

fn kernel() -> ProjectId {
    ProjectId {
        name: "linux".to_string(),
        prompt_dir: "kernel".to_string(),
    }
}

#[test]
fn the_prompts_of_a_project_are_below_the_root() {
    assert_eq!(project_prompts_dir("/data/p/r", &kernel()), "/data/p/r/kernel");
    let path = project_prompts_path("/data/p/r", &kernel(), true).unwrap();
    assert_eq!(path, "/data/p/r/kernel");
}

#[test]
fn a_project_without_prompts_is_an_error() {
    let missing = project_prompts_path("/data/p/r", &kernel(), false).unwrap_err();
    assert_eq!(
        missing.message(),
        "no prompts for project linux: expected a kernel directory in the prompt bundle at /data/p/r/kernel"
    );
}

#[derive(Default)]
struct Tree {
    files: BTreeMap<String, Vec<u8>>,
    dirs: BTreeSet<String>,
}

impl Tree {
    fn take(&mut self, step: &InstallStep) {
        match step {
            InstallStep::RemoveTree(root) => {
                let below = format!("{root}/");
                self.files.retain(|path, _| !path.starts_with(&below));
                self.dirs.retain(|path| path != root && !path.starts_with(&below));
            }
            InstallStep::CreateDir(dir) => {
                for above in Path::new(dir).ancestors() {
                    self.dirs.insert(above.to_str().unwrap().to_string());
                }
            }
            InstallStep::WriteFile(path, contents) => {
                let dir = Path::new(path).parent().unwrap().to_str().unwrap();
                assert!(self.dirs.contains(dir), "{dir}");
                self.files.insert(path.clone(), contents.to_vec());
            }
        }
    }

    fn is_complete(&self, bundle: &PromptBundle, root: &str) -> bool {
        bundle
            .files
            .iter()
            .all(|file| self.files.get(&join(root, &file.path)) == Some(&file.contents))
    }

    fn is_marked(&self, root: &str) -> bool {
        self.files.contains_key(&complete_marker(root))
    }
}

#[test]
fn an_installation_writes_everything_and_the_marker_last() {
    let bundle = bundle();
    let root = prompt_bundle_root("/data", &bundle);
    let steps = install_prompt_bundle(&bundle, &root, false, false, false);
    assert_eq!(steps.len(), 2 * bundle.files.len() + 1);
    let mut tree = Tree::default();
    for step in &steps {
        assert!(!tree.is_marked(&root));
        tree.take(step);
    }
    assert!(tree.is_complete(&bundle, &root));
    assert_eq!(
        tree.files["/data/sashiko/prompts/0f3a9c1d/.sashiko-prompts-complete"],
        PROMPT_BUNDLE_REVISION.as_bytes()
    );
    assert_eq!(tree.files.len(), bundle.files.len() + 1);
    let dir = project_prompts_dir(&root, &kernel());
    assert!(tree.dirs.contains(&dir));
}

#[test]
fn an_installed_bundle_is_left_alone() {
    let bundle = bundle();
    assert!(install_prompt_bundle(&bundle, "/r", false, true, true).is_empty());
    assert!(install_prompt_bundle(&bundle, "/r", false, true, false).is_empty());
}

#[test]
fn an_installation_without_force_keeps_other_files() {
    let bundle = bundle();
    let mut tree = Tree::default();
    tree.files.insert("/data/r/kernel/old.md".to_string(), vec![1]);
    tree.files.insert("/data/r/kernel/severity.md".to_string(), vec![2]);
    for step in &install_prompt_bundle(&bundle, "/data/r", false, false, true) {
        tree.take(step);
        assert_eq!(tree.files["/data/r/kernel/old.md"], vec![1]);
    }
    assert!(tree.is_complete(&bundle, "/data/r"));
}

#[test]
fn a_forced_installation_removes_what_is_there() {
    let bundle = bundle();
    let root = "/data/r";
    let mut tree = Tree::default();
    for step in &install_prompt_bundle(&bundle, root, false, false, false) {
        tree.take(step);
    }
    tree.files.insert("/data/r/kernel/old.md".to_string(), vec![1]);
    tree.files.insert("/data/root.md".to_string(), vec![2]);
    let steps = install_prompt_bundle(&bundle, root, true, true, true);
    assert!(matches!(&steps[0], InstallStep::RemoveTree(path) if path == root));
    for (i, step) in steps.iter().enumerate() {
        tree.take(step);
        assert_eq!(tree.is_marked(root), i + 1 == steps.len());
    }
    assert!(tree.is_complete(&bundle, root));
    assert!(!tree.files.contains_key("/data/r/kernel/old.md"));
    assert!(tree.files.contains_key("/data/root.md"));
}

#[test]
fn a_forced_installation_needs_nothing_to_remove() {
    let bundle = bundle();
    let steps = install_prompt_bundle(&bundle, "/r", true, false, false);
    assert!(!matches!(&steps[0], InstallStep::RemoveTree(_)));
    assert_eq!(steps.len(), 2 * bundle.files.len() + 1);
}

#[test]
fn a_failed_step_says_what_failed() {
    let bundle = bundle();
    let steps = install_prompt_bundle(&bundle, "/r", true, false, true);
    let messages: Vec<String> = steps.iter().map(|step| step.failure()).collect();
    assert_eq!(messages[0], "failed to remove /r");
    assert_eq!(messages[1], "failed to create /r/kernel");
    assert_eq!(messages[2], "failed to write /r/kernel/review-core.md");
    assert_eq!(
        messages[messages.len() - 1],
        "failed to write /r/.sashiko-prompts-complete"
    );
}
