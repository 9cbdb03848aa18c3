use multipush::error::CoreError;
use multipush::json::{Json, JsonEntry};
use multipush::recipe::{
    extract_recipe_params, put_policies, recipe_expansion, take_policies, template_substitute, ParamType, Recipe,
};

/// A YAML document as the library's value type; `!tag value` becomes `{tag: value}`.
fn to_json(v: serde_yaml_ng::Value) -> Json {
    match v {
        serde_yaml_ng::Value::Null => Json::Null,
        serde_yaml_ng::Value::Bool(b) => Json::Bool(b),
        serde_yaml_ng::Value::Number(n) => Json::Number(n.to_string()),
        serde_yaml_ng::Value::String(s) => Json::Str(s),
        serde_yaml_ng::Value::Sequence(a) => Json::Array(a.into_iter().map(to_json).collect()),
        serde_yaml_ng::Value::Mapping(m) => Json::Object(
            m.into_iter()
                .map(|(k, value)| JsonEntry {
                    key: k.as_str().unwrap_or_default().to_string(),
                    value: to_json(value),
                })
                .collect(),
        ),
        serde_yaml_ng::Value::Tagged(t) => {
            let tag = t.tag.to_string().trim_start_matches('!').to_string();
            Json::Object(vec![JsonEntry { key: tag, value: to_json(t.value) }])
        }
    }
}

fn parse(text: &str) -> Json {
    to_json(serde_yaml_ng::from_str(text).unwrap())
}

fn recipe_from(text: &str) -> Result<Recipe, CoreError> {
    Recipe::from_yaml(text, &parse(text))
}

fn key<'a>(j: &'a Json, k: &str) -> Option<&'a Json> {
    match j {
        Json::Object(es) => es.iter().find(|e| e.key == k).map(|e| &e.value),
        _ => None,
    }
}

fn str_of(j: Option<&Json>) -> Option<&str> {
    match j {
        Some(Json::Str(s)) => Some(s.as_str()),
        _ => None,
    }
}

/// Expand a recipe as a policy without fields of its own would: the template filled in,
/// parsed, and turned into `{name, description, rules}`.
fn expand_full(recipe: &Recipe, params: &[(&str, &str)]) -> Result<Json, CoreError> {
    let params: Vec<(String, String)> = params.iter().map(|(k, v)| (k.to_string(), v.to_string())).collect();
    let text = recipe.expand(&params)?;
    recipe.expanded_policy(&Json::Null, parse(&text))
}

fn recipe_message(e: CoreError) -> String {
    match e {
        CoreError::Recipe(m) => m,
        other => panic!("unexpected error {:?}", other),
    }
}

fn simple_recipe_yaml() -> &'static str {
    r#"
name: test-recipe
description: "A test recipe"
params:
  owner:
    type: string
    required: true
    description: "The owner"
  mode:
    type: string
    required: false
    default: create_if_missing
    description: "File mode"
    enum:
      - create_if_missing
      - exact_match
rules:
  - !ensure_file
    path: CODEOWNERS
    content: "* {{ owner }}"
    mode: "{{ mode }}"
"#
}

fn lookup_recipe_yaml() -> &'static str {
    r#"
name: lookup-recipe
description: "A recipe with lookups"
params:
  template:
    type: string
    required: true
    description: "Template name"
    enum:
      - alpha
      - beta
  extra:
    type: string
    required: false
    default: ""
    description: "Extra info"
lookups:
  template:
    alpha: "alpha-content {{ extra }}"
    beta: "beta-content"
rules:
  - !ensure_file
    path: "output.txt"
    content: "{{ template }}"
"#
}

fn pairs(ps: &[(&str, &str)]) -> Vec<(String, String)> {
    ps.iter().map(|(k, v)| (k.to_string(), v.to_string())).collect()
}

fn rules_len(expanded: &Json) -> usize {
    match key(expanded, "rules") {
        Some(Json::Array(a)) => a.len(),
        _ => panic!("no rules list"),
    }
}

#[test]
fn parse_recipe() {
    let recipe = recipe_from(simple_recipe_yaml()).unwrap();
    assert_eq!(recipe.name, "test-recipe");
    assert_eq!(recipe.description, "A test recipe");
    assert_eq!(recipe.params.len(), 2);

    let owner = recipe.param("owner").unwrap();
    assert_eq!(owner.param_type, ParamType::String);
    assert!(owner.required);
    assert!(owner.default.is_none());

    let mode = recipe.param("mode").unwrap();
    assert!(!mode.required);
    assert_eq!(mode.default.as_deref(), Some("create_if_missing"));
    assert_eq!(mode.enum_values.as_ref().unwrap(), &["create_if_missing", "exact_match"]);
}

#[test]
fn expand_with_valid_params() {
    let recipe = recipe_from(simple_recipe_yaml()).unwrap();
    let expanded = expand_full(&recipe, &[("owner", "@my-team")]).unwrap();
    assert_eq!(str_of(key(&expanded, "name")), Some("test-recipe"));
    assert_eq!(rules_len(&expanded), 1);
}

#[test]
fn expand_missing_required_param() {
    let recipe = recipe_from(simple_recipe_yaml()).unwrap();
    let err = expand_full(&recipe, &[]).unwrap_err();
    assert!(recipe_message(err).contains("missing required parameter 'owner'"));
}

#[test]
fn expand_unknown_param() {
    let recipe = recipe_from(simple_recipe_yaml()).unwrap();
    let err = expand_full(&recipe, &[("owner", "@team"), ("bogus", "value")]).unwrap_err();
    assert!(recipe_message(err).contains("unknown parameter 'bogus'"));
}

#[test]
fn expand_invalid_enum_value() {
    let recipe = recipe_from(simple_recipe_yaml()).unwrap();
    let err = expand_full(&recipe, &[("owner", "@team"), ("mode", "invalid_mode")]).unwrap_err();
    assert!(recipe_message(err).contains("not in allowed values"));
}

#[test]
fn expand_uses_defaults() {
    let recipe = recipe_from(simple_recipe_yaml()).unwrap();
    let expanded = expand_full(&recipe, &[("owner", "@team")]).unwrap();
    assert_eq!(rules_len(&expanded), 1);
}

#[test]
fn expand_with_lookups() {
    let recipe = recipe_from(lookup_recipe_yaml()).unwrap();
    let expanded = expand_full(&recipe, &[("template", "alpha"), ("extra", "bonus")]).unwrap();
    assert_eq!(rules_len(&expanded), 1);
}

#[test]
fn template_substitute_simple() {
    let params = pairs(&[("name", "hello")]);
    let result = template_substitute("value: {{ name }}", &params).unwrap();
    assert_eq!(result, "value: hello");
}

#[test]
fn template_substitute_no_spaces() {
    let params = pairs(&[("name", "hello")]);
    let result = template_substitute("value: {{name}}", &params).unwrap();
    assert_eq!(result, "value: hello");
}

#[test]
fn template_substitute_multiline() {
    let params = pairs(&[("content", "line1\nline2\nline3")]);
    let template = "    data: |\n      {{ content }}";
    let result = template_substitute(template, &params).unwrap();
    assert_eq!(result, "    data: |\n      line1\n      line2\n      line3");
}

#[test]
fn template_substitute_unknown_key_left_as_is() {
    let params = Vec::new();
    let result = template_substitute("value: {{ unknown }}", &params).unwrap();
    assert_eq!(result, "value: ");
}

#[test]
fn template_substitute_multiline_keeps_empty_lines_bare() {
    let params = pairs(&[("body", "a\n\nb\n")]);
    let result = template_substitute("  x: {{ body }} end", &params).unwrap();
    assert_eq!(result, "  x: a\n\n  b\n end");
}

#[test]
fn lookup_content_resolves_references() {
    let recipe = recipe_from(lookup_recipe_yaml()).unwrap();
    let text = recipe.expand(&pairs(&[("template", "alpha"), ("extra", "bonus")])).unwrap();
    assert!(text.contains("content: \"alpha-content bonus\""));
    let text = recipe.expand(&pairs(&[("template", "beta")])).unwrap();
    assert!(text.contains("content: \"beta-content\""));
}

#[test]
fn recipe_document_errors() {
    let err = recipe_from("- a\n- b\n").err().unwrap();
    assert_eq!(recipe_message(err), "recipe must be a YAML mapping");
    let err = recipe_from("description: x\n").err().unwrap();
    assert_eq!(recipe_message(err), "recipe missing 'name' field");
    let err = recipe_from("name: r\n").err().unwrap();
    assert_eq!(recipe_message(err), "recipe 'r' missing 'description'");
    let err = recipe_from("name: r\ndescription: d\nparams: 3\n").err().unwrap();
    assert_eq!(recipe_message(err), "recipe 'r': 'params' must be a mapping");
    let err = recipe_from("name: r\ndescription: d\nparams:\n  p: 1\n").err().unwrap();
    assert_eq!(recipe_message(err), "recipe 'r': param 'p' must be a mapping");
    let err = recipe_from("name: r\ndescription: d\nparams:\n  p:\n    type: float\n").err().unwrap();
    assert_eq!(recipe_message(err), "recipe 'r': param 'p' has unknown type 'float'");
    let err = recipe_from("name: r\ndescription: d\nlookups: x\n").err().unwrap();
    assert_eq!(recipe_message(err), "recipe 'r': 'lookups' must be a mapping");
    let err = recipe_from("name: r\ndescription: d\nlookups:\n  p: 2\n").err().unwrap();
    assert_eq!(recipe_message(err), "recipe 'r': lookup 'p' must be a mapping");
    let err = recipe_from("name: r\ndescription: d\nlookups:\n  p:\n    a: 1\n").err().unwrap();
    assert_eq!(recipe_message(err), "recipe 'r': lookup 'p.a' value must be a string");
    let err = recipe_from("name: r\ndescription: d\nlookups:\n  p:\n    a: b\n").err().unwrap();
    assert_eq!(recipe_message(err), "recipe 'r': lookup key 'p' does not match any parameter");
}

#[test]
fn int_param_type_and_missing_type() {
    let recipe = recipe_from("name: r\ndescription: d\nparams:\n  n:\n    type: int\n  s: {}\n").unwrap();
    assert_eq!(recipe.param("n").unwrap().param_type, ParamType::Int);
    assert_eq!(recipe.param("s").unwrap().param_type, ParamType::String);
    assert_eq!(ParamType::Int.to_text(), "int");
    assert!(recipe.param("zzz").is_none());
}

#[test]
fn invalid_enum_message_lists_allowed_values() {
    let recipe = recipe_from(simple_recipe_yaml()).unwrap();
    let err = recipe.expand(&pairs(&[("owner", "@t"), ("mode", "nope")])).unwrap_err();
    assert_eq!(
        recipe_message(err),
        "recipe 'test-recipe': parameter 'mode' value 'nope' not in allowed values: create_if_missing, exact_match"
    );
}

#[test]
fn policy_params_are_scalars_as_text() {
    let policy = parse("recipe: x\nparams:\n  a: hi\n  b: 3\n  c: true\n");
    let ps = extract_recipe_params(&policy).unwrap();
    assert_eq!(ps, pairs(&[("a", "hi"), ("b", "3"), ("c", "true")]));
    let policy = parse("recipe: x\nparams:\n  a: [1]\n");
    let err = extract_recipe_params(&policy).unwrap_err();
    assert_eq!(recipe_message(err), "param 'a' value must be a scalar");
    let policy = parse("recipe: x\nparams: 4\n");
    assert_eq!(recipe_message(extract_recipe_params(&policy).unwrap_err()), "'params' must be a mapping");
}

#[test]
fn policy_expansion_requests() {
    let recipes = vec![recipe_from(simple_recipe_yaml()).unwrap(), recipe_from(lookup_recipe_yaml()).unwrap()];
    let plain = parse("name: p\ntargets: {repos: ['*']}\n");
    assert!(recipe_expansion(&plain, &recipes).unwrap().is_none());

    let bad = parse("recipe: 5\n");
    assert_eq!(recipe_message(recipe_expansion(&bad, &recipes).unwrap_err()), "'recipe' field must be a string");

    let unknown = parse("recipe: nope\ntargets: {}\n");
    assert_eq!(
        recipe_message(recipe_expansion(&unknown, &recipes).unwrap_err()),
        "unknown recipe 'nope'. Available recipes: lookup-recipe, test-recipe"
    );

    let no_targets = parse("recipe: test-recipe\nparams: {owner: me}\n");
    assert_eq!(
        recipe_message(recipe_expansion(&no_targets, &recipes).unwrap_err()),
        "recipe 'test-recipe' policy must include 'targets'"
    );

    let ok = parse("recipe: test-recipe\nname: mine\nseverity: warning\ntargets: {repos: ['a/*']}\nparams: {owner: me}\n");
    let (k, text) = recipe_expansion(&ok, &recipes).unwrap().unwrap();
    assert_eq!(k, 0);
    assert!(text.contains("content: \"* me\""));
    let policy = recipes[k].expanded_policy(&ok, parse(&text)).unwrap();
    assert_eq!(str_of(key(&policy, "name")), Some("mine"));
    assert_eq!(str_of(key(&policy, "description")), Some("A test recipe"));
    assert_eq!(str_of(key(&policy, "severity")), Some("warning"));
    assert!(key(&policy, "targets").is_some());
    assert_eq!(rules_len(&policy), 1);
    match &policy {
        Json::Object(es) => {
            let keys: Vec<&str> = es.iter().map(|e| e.key.as_str()).collect();
            assert_eq!(keys, vec!["name", "description", "rules", "targets", "severity"]);
        }
        _ => panic!("not a mapping"),
    }
}

#[test]
fn expanded_policy_errors() {
    let recipe = recipe_from(simple_recipe_yaml()).unwrap();
    let err = recipe.expanded_policy(&Json::Null, parse("- 1\n")).unwrap_err();
    assert_eq!(recipe_message(err), "recipe 'test-recipe': substituted YAML is not a mapping");
    let err = recipe.expanded_policy(&Json::Null, parse("a: 1\n")).unwrap_err();
    assert_eq!(recipe_message(err), "recipe 'test-recipe': no 'rules' key after expansion");
}

#[test]
fn take_and_put_policies() {
    let merged = parse("provider: {type: github}\npolicies:\n  - name: a\n  - name: b\n");
    let (rest, list) = take_policies(merged);
    let list = list.unwrap();
    assert_eq!(list.len(), 2);
    match key(&rest, "policies") {
        Some(Json::Array(a)) => assert!(a.is_empty()),
        _ => panic!("policies gone"),
    }
    let back = put_policies(rest, vec![Json::Str("x".to_string())]);
    match key(&back, "policies") {
        Some(Json::Array(a)) => assert_eq!(a.len(), 1),
        _ => panic!("policies gone"),
    }
    let (same, none) = take_policies(parse("policies: 3\n"));
    assert!(none.is_none());
    assert!(matches!(key(&same, "policies"), Some(Json::Number(_))));
}
