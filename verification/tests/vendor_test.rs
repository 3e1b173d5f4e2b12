use war::error::WarError;
use war::vendor::parse_modules_txt;

const SAMPLE_MODULES_TXT: &str = "\
# github.com/gin-gonic/gin v1.9.1
## explicit; go 1.20
github.com/gin-gonic/gin
github.com/gin-gonic/gin/binding
github.com/gin-gonic/gin/render
# golang.org/x/net v0.10.0
## explicit; go 1.17
golang.org/x/net/html
golang.org/x/net/html/atom
# github.com/stretchr/testify v1.8.4
## explicit; go 1.20
github.com/stretchr/testify/assert
";

#[test]
fn test_parse_modules_txt_basic() {
    let modules = parse_modules_txt(SAMPLE_MODULES_TXT).unwrap();

    assert_eq!(modules.len(), 3);

    assert_eq!(modules[0].path, "github.com/gin-gonic/gin");
    assert_eq!(modules[0].version, "v1.9.1");
    assert!(modules[0].explicit);
    assert_eq!(modules[0].go_version.as_deref(), Some("1.20"));
    assert_eq!(modules[0].packages.len(), 3);
    assert_eq!(modules[0].packages[0], "github.com/gin-gonic/gin");

    assert_eq!(modules[1].path, "golang.org/x/net");
    assert_eq!(modules[1].version, "v0.10.0");
    assert_eq!(modules[1].go_version.as_deref(), Some("1.17"));
    assert_eq!(modules[1].packages.len(), 2);

    assert_eq!(modules[2].path, "github.com/stretchr/testify");
    assert_eq!(modules[2].packages[0], "github.com/stretchr/testify/assert");
}

#[test]
fn test_parse_empty_content() {
    let modules = parse_modules_txt("").unwrap();
    assert!(modules.is_empty());
}

#[test]
fn test_parse_blank_lines_ignored() {
    let content = "\n\n# github.com/foo/bar v0.1.0\n## explicit\n\ngithub.com/foo/bar\n\n";
    let modules = parse_modules_txt(content).unwrap();

    assert_eq!(modules.len(), 1);
    assert_eq!(modules[0].path, "github.com/foo/bar");
    assert!(modules[0].explicit);
    assert!(modules[0].go_version.is_none());
}

#[test]
fn test_parse_invalid_header_returns_error() {
    let content = "# incomplete-header\n";
    let result = parse_modules_txt(content);
    assert!(result.is_err());
}

#[test]
fn test_parse_orphan_metadata_returns_error() {
    let content = "## explicit; go 1.20\n";
    let result = parse_modules_txt(content);
    assert!(result.is_err());
}

#[test]
fn test_parse_orphan_package_returns_error() {
    let content = "github.com/some/package\n";
    let result = parse_modules_txt(content);
    assert!(result.is_err());
}

#[test]
fn test_parse_no_explicit_flag() {
    let content = "# github.com/foo/bar v1.0.0\ngithub.com/foo/bar\n";
    let modules = parse_modules_txt(content).unwrap();

    assert_eq!(modules.len(), 1);
    assert!(!modules[0].explicit);
    assert!(modules[0].go_version.is_none());
}

#[test]
fn parse_errors_name_the_line() {
    match parse_modules_txt("# a v1\nb\n# broken\n") {
        Err(WarError::ParseError(m)) => {
            assert_eq!(m, "invalid module header at line 3: '# broken'")
        }
        other => panic!("unexpected: {:?}", other),
    }
    match parse_modules_txt("## explicit\n") {
        Err(WarError::ParseError(m)) => {
            assert_eq!(m, "metadata line without module header at line 1: '## explicit'")
        }
        other => panic!("unexpected: {:?}", other),
    }
    match parse_modules_txt("\npkg/x\n") {
        Err(WarError::ParseError(m)) => {
            assert_eq!(m, "package line without module header at line 2: 'pkg/x'")
        }
        other => panic!("unexpected: {:?}", other),
    }
}

#[test]
fn parse_sets_vendor_path_per_module() {
    let modules = parse_modules_txt("# github.com/a/b v1.0.0\n").unwrap();
    assert_eq!(modules[0].vendor_path, "");
    assert!(modules[0].packages.is_empty());
}
