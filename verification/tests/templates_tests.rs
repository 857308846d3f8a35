use rung::templates::{TemplateLoader, TemplateManager};
use std::cell::Cell;
use std::rc::Rc;

struct TestLoader {
    content: String,
}

impl TestLoader {
    fn new(content: &str) -> TestLoader {
        TestLoader {
            content: content.to_string(),
        }
    }
}

impl TemplateLoader for TestLoader {
    fn load(&self, _path: &String) -> String {
        String::from(&self.content)
    }
}

struct CountingLoader {
    content: String,
    count: Rc<Cell<usize>>,
}

impl TemplateLoader for CountingLoader {
    fn load(&self, _path: &String) -> String {
        self.count.set(self.count.get() + 1);
        String::from(&self.content)
    }
}

#[test]
fn returns_template_from_loader() {
    let loader = TestLoader::new("test template");
    let expected = String::from("test template");

    assert_eq!(
        TemplateManager::with_loader(loader).get(&"test.txt".to_string()),
        Some(expected)
    );
}

#[test]
fn returns_multiple_lines() {
    let loader = TestLoader::new("test\ntemplate");
    let content = TemplateManager::with_loader(loader)
        .get_lines(&"test.txt".to_string())
        .unwrap();

    assert_eq!(2, content.len());
    assert_eq!("test", content[0]);
    assert_eq!("template", content[1]);
}

#[test]
fn should_load_template_from_file() {
    let loader = TestLoader::new("hello\nworld");
    let mut template_manager = TemplateManager::with_loader(loader);

    let content = template_manager.get(&"file.txt".to_string());
    let expected = String::from("hello\nworld");

    assert_eq!(Some(expected), content);
}

#[test]
fn loads_each_key_at_most_once() {
    let count = Rc::new(Cell::new(0));
    let loader = CountingLoader {
        content: "cached".to_string(),
        count: Rc::clone(&count),
    };
    let mut manager = TemplateManager::with_loader(loader);

    let key = "template.txt".to_string();
    let first = manager.get(&key).unwrap();
    let second = manager.get(&key).unwrap();

    assert_eq!(first, second);
    assert_eq!("cached", first);
    assert_eq!(1, count.get());

    let other = manager.get(&"other.txt".to_string()).unwrap();
    assert_eq!("cached", other);
    assert_eq!(2, count.get());
}
