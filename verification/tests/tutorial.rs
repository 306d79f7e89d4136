use sonic_oxide::tutorial::{
    absolutize_image_paths, load_chapters, load_examples, ExampleDir, SourceFile,
};

#[test]
fn absolutizes_relative_image_urls() {
    let dir = "/repo/etc/doc/tutorial";
    let md = "intro\n![sample graph](../../../etc/doc/images/tutorial/sample.png)\nafter";
    let out = absolutize_image_paths(md, dir);
    assert!(
        out.contains("![sample graph](/repo/etc/doc/images/tutorial/sample.png)"),
        "got: {out}"
    );
    assert!(out.starts_with("intro\n") && out.ends_with("\nafter"));

    let md = "![a](https://x/y.png) ![b](/abs/p.png) ![c](broken";
    let out = absolutize_image_paths(md, dir);
    assert!(out.contains("(https://x/y.png)"));
    assert!(out.contains("(/abs/p.png)"));
    assert!(out.ends_with("![c](broken"));
}

fn file(name: &str, text: Option<&str>) -> SourceFile {
    SourceFile { name: name.to_string(), text: text.map(|t| t.to_string()) }
}

#[test]
fn chapters_come_in_the_order_of_their_names() {
    let files = vec![
        file("02-b.md", Some("\n  2 Second \nrest")),
        file("notes.txt", Some("no chapter")),
        file("01-a.md", Some("")),
        file("03-c.md", None),
    ];
    let chapters = load_chapters("/t", &files);
    let found: Vec<(&str, &str)> =
        chapters.iter().map(|c| (c.path.as_str(), c.title.as_str())).collect();
    assert_eq!(
        found,
        vec![("/t/01-a.md", "01-a"), ("/t/02-b.md", "2 Second"), ("/t/03-c.md", "03-c")]
    );
}

#[test]
fn examples_are_grouped_by_category() {
    let dirs = vec![
        ExampleDir { name: "wizard".to_string(), files: vec!["z.rb".to_string()] },
        ExampleDir {
            name: "apprentice".to_string(),
            files: vec!["b.rb".to_string(), "readme.md".to_string(), "a.rb".to_string()],
        },
    ];
    let found: Vec<(String, String)> =
        load_examples("/e", &dirs).into_iter().map(|e| (e.category, e.path)).collect();
    assert_eq!(
        found,
        vec![
            ("apprentice".to_string(), "/e/apprentice/a.rb".to_string()),
            ("apprentice".to_string(), "/e/apprentice/b.rb".to_string()),
            ("wizard".to_string(), "/e/wizard/z.rb".to_string()),
        ]
    );
}

#[test]
fn missing_dirs_yield_empty_lists() {
    assert!(load_chapters("/nonexistent", &vec![]).is_empty());
    assert!(load_examples("/nonexistent", &vec![]).is_empty());
}

#[test]
fn resolving_images_twice_is_resolving_them_once() {
    let dir = "/repo/etc/doc/tutorial";
    let md = "![a](../images/a.png) text ![b](http://x/b.png) ![c](/abs/c.png) ![d](./d/../e.png)";
    let once = absolutize_image_paths(md, dir);
    assert_eq!(
        once,
        "![a](/repo/etc/doc/images/a.png) text ![b](http://x/b.png) ![c](/abs/c.png) \
         ![d](/repo/etc/doc/tutorial/e.png)"
    );
    assert_eq!(absolutize_image_paths(&once, dir), once);
    assert_eq!(absolutize_image_paths("no [image](x.png) here", dir), "no [image](x.png) here");
}
