use bananabit::client::{decimal_string, lookup_found, ApiError, CmsClient, Session, UserRole};
use bananabit::extensions::{Extension, ExtensionManager, ExtensionRoute};

struct Plugin {
    id: &'static str,
    version: &'static str,
    paths: Vec<&'static str>,
    fail: bool,
}

impl Extension for Plugin {
    fn id(&self) -> &'static str {
        self.id
    }

    fn name(&self) -> &'static str {
        "Plugin"
    }

    fn version(&self) -> &'static str {
        self.version
    }

    fn init(&mut self) -> Result<(), String> {
        if self.fail {
            Err("cannot start".to_string())
        } else {
            Ok(())
        }
    }

    fn routes(&self) -> Vec<ExtensionRoute> {
        self.paths
            .iter()
            .map(|p| ExtensionRoute { path: p.to_string(), requires_auth: false, admin_only: false })
            .collect()
    }
}

fn plugin(id: &'static str, version: &'static str, paths: Vec<&'static str>) -> Plugin {
    Plugin { id, version, paths, fail: false }
}

#[test]
fn client_urls() {
    let c = CmsClient::new("http://api.test".to_string());
    assert_eq!(c.base_url(), "http://api.test");
    assert_eq!(c.posts_url(), "http://api.test/api/posts");
    assert_eq!(c.post_url(42), "http://api.test/api/posts/42");
    assert_eq!(c.post_slug_url("hello-world"), "http://api.test/api/posts/slug/hello-world");
    assert_eq!(c.login_url(), "http://api.test/api/auth/login");
    assert_eq!(c.user_url("ann"), "http://api.test/api/users/ann");
}

#[test]
fn default_client_is_local() {
    let c = CmsClient::default();
    assert_eq!(c.base_url(), "http://localhost:8080");
}

#[test]
fn decimal_digits() {
    assert_eq!(decimal_string(0), "0");
    assert_eq!(decimal_string(7), "7");
    assert_eq!(decimal_string(10), "10");
    assert_eq!(decimal_string(4294967295), "4294967295");
}

#[test]
fn not_found_status() {
    assert!(!lookup_found(404));
    assert!(lookup_found(200));
    assert!(lookup_found(500));
}

#[test]
fn api_error_text() {
    let e = ApiError { message: "boom".to_string() };
    assert_eq!(e.describe(), "API Error: boom");
}

#[test]
fn session_default_is_anonymous() {
    let s = Session::default();
    assert!(s.user_id.is_none());
    assert!(s.username.is_none());
    assert!(s.role.is_none());
    assert!(!s.authenticated);
    assert_eq!(UserRole::Admin, UserRole::Admin);
    assert_ne!(UserRole::Admin, UserRole::Editor);
}

#[test]
fn register_and_look_up() {
    let mut m: ExtensionManager<Plugin> = ExtensionManager::new();
    m.register(plugin("posts", "1.0", vec!["/posts"]));
    m.register(plugin("pages", "0.3", vec!["/pages", "/page/:slug"]));
    assert!(m.get_extension("posts").is_some());
    assert!(m.get_extension("missing").is_none());
    let listed = m.list_extensions();
    assert_eq!(listed, vec![("posts", "Plugin", "1.0"), ("pages", "Plugin", "0.3")]);
    let routes: Vec<String> = m.get_all_routes().into_iter().map(|r| r.path).collect();
    assert_eq!(routes, vec!["/posts", "/pages", "/page/:slug"]);
}

#[test]
fn same_id_replaces_in_place() {
    let mut m: ExtensionManager<Plugin> = ExtensionManager::default();
    m.register(plugin("a", "1", vec![]));
    m.register(plugin("b", "1", vec![]));
    m.register(plugin("a", "2", vec![]));
    let listed = m.list_extensions();
    assert_eq!(listed, vec![("a", "Plugin", "2"), ("b", "Plugin", "1")]);
    assert_eq!(m.get_extension("a").map(|e| e.version()), Some("2"));
}

#[test]
fn insert_under_given_id() {
    let mut m: ExtensionManager<Plugin> = ExtensionManager::new();
    m.insert("custom".to_string(), plugin("other", "1", vec![]));
    assert!(m.get_extension("custom").is_some());
    assert!(m.get_extension("other").is_none());
    let p = Plugin { id: "x", version: "1", paths: vec![], fail: true };
    let mut q = p;
    assert!(q.init().is_err());
}

#[test]
fn init_all_stops_at_first_failure() {
    let mut ok: ExtensionManager<Plugin> = ExtensionManager::new();
    ok.register(plugin("a", "1", vec![]));
    ok.register(plugin("b", "1", vec![]));
    assert_eq!(ok.init_all(), Ok(()));
    assert_eq!(ok.init_all(), Ok(()));

    let mut bad: ExtensionManager<Plugin> = ExtensionManager::new();
    bad.register(plugin("a", "1", vec![]));
    bad.register(Plugin { id: "b", version: "1", paths: vec![], fail: true });
    assert_eq!(bad.init_all(), Err("cannot start".to_string()));
    assert_eq!(bad.list_extensions().len(), 2);
}

#[test]
fn new_manager_is_empty() {
    let m: ExtensionManager<Plugin> = ExtensionManager::new();
    assert!(m.list_extensions().is_empty());
    assert!(m.get_all_routes().is_empty());
    assert!(m.get_extension("posts").is_none());
}
