use katana::templates::{Templates, TemplatesPage};

/// Creates a mock Templates instance with predefined template strings.
fn new_mock() -> Templates {
    Templates {
        banner: "Welcome, {{username}}!".to_string(),
        error: "Error: {{message}}".to_string(),
        directory: "User: {{username}}, Role: {{role}}".to_string(),
    }
}

/// Test that templates are loaded correctly and not empty
#[test]
fn test_template_loading() {
    let template_extensions: Templates = new_mock();

    // Ensure template_extensions are loaded correctly
    assert!(
        !template_extensions.banner.is_empty(),
        "Banner template should not be empty"
    );
    assert!(
        !template_extensions.error.is_empty(),
        "Error template should not be empty"
    );
    assert!(
        !template_extensions.directory.is_empty(),
        "Directory template should not be empty"
    );
}

/// Test rendering a valid template with parameters
#[test]
fn test_rendering_with_valid_template() {
    let template_extensions: Templates = new_mock();
    let mut params = Vec::new();
    params.push(("username".to_string(), "Alice".to_string()));

    let rendered = template_extensions.render(TemplatesPage::BANNER, &params);

    assert!(
        rendered.contains("Alice"),
        "Rendered template should contain replaced username"
    );
}

/// Test rendering a template with multiple parameters
#[test]
fn test_rendering_with_multiple_params() {
    let template_extensions: Templates = new_mock();
    let mut params = Vec::new();
    params.push(("username".to_string(), "Bob".to_string()));
    params.push(("role".to_string(), "Admin".to_string()));

    let rendered = template_extensions.render(TemplatesPage::DIRECTORY, &params);

    assert!(
        rendered.contains("Bob"),
        "Rendered template should contain 'Bob'"
    );
    assert!(
        rendered.contains("Admin"),
        "Rendered template should contain 'Admin'"
    );
}

/// Test rendering a template with missing placeholders
#[test]
fn test_rendering_with_missing_placeholder() {
    let template_extensions: Templates = new_mock();
    let params = Vec::new(); // No params provided

    let rendered = template_extensions.render(TemplatesPage::ERROR, &params);

    assert!(
        rendered.contains("{{"),
        "Unreplaced placeholders should remain"
    );
}

/// Test rendering a template with empty parameter values
#[test]
fn test_rendering_with_empty_params() {
    let template_extensions: Templates = new_mock();
    let mut params = Vec::new();
    params.push(("username".to_string(), "".to_string()));

    let rendered = template_extensions.render(TemplatesPage::BANNER, &params);

    assert!(
        rendered.contains("{{username}}"),
        "Empty value should not remove the placeholder"
    );
}
