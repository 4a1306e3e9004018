//! Tests for the argument allocator.

use command_cli::Arguments;
use command_cli::Parameter;

#[test]
fn arguments__new__too_few_args__returns_none() {
    let param = Parameter { name: "PARAM", required: true, repeating: false };
    let params = &[param];
    let args = vec!["app".to_string(), "cmd".to_string()];

    let result = Arguments::new(params, args);

    assert!(result.is_none());
}

#[test]
fn arguments__new__too_many_args__returns_none() {
    let param = Parameter { name: "PARAM", required: true, repeating: false };
    let params = &[param];
    let args = vec!["app".to_string(), "cmd".to_string(), "arg1".to_string(), "arg2".to_string()];

    let result = Arguments::new(params, args);

    assert!(result.is_none());
}

#[test]
fn arguments__new__optional_param_and_no_args__returns_empty() {
    let params = &[Parameter { name: "PARAM", required: false, repeating: false }];
    let args = vec!["app".to_string(), "cmd".to_string()];

    let arguments = Arguments::new(params, args).unwrap();

    assert_eq!(0, arguments.get(params[0].name).unwrap().len());
}

#[test]
fn arguments__new__required__success() {
    let params = &[
        Parameter { name: "PARAM1", required: true, repeating: false },
        Parameter { name: "PARAM2", required: true, repeating: false },
    ];
    let (arg1, arg2) = ("arg1".to_string(), "arg2".to_string());
    let args = vec!["app".to_string(), "cmd".to_string(), arg1.clone(), arg2.clone()];

    let arguments = Arguments::new(params, args).unwrap();

    assert_eq!(vec![arg1], *arguments.get(params[0].name).unwrap());
    assert_eq!(vec![arg2], *arguments.get(params[1].name).unwrap());
}

#[test]
fn arguments__new__repeating_param_and_args__success() {
    let params = &[Parameter { name: "PARAM", required: true, repeating: true }];
    let (arg1, arg2) = ("arg1".to_string(), "arg2".to_string());
    let args = vec!["app".to_string(), "cmd".to_string(), arg1.clone(), arg2.clone()];

    let arguments = Arguments::new(params, args.clone()).unwrap();

    assert_eq!(vec![arg1, arg2], *arguments.get(params[0].name).unwrap());
}

#[test]
fn arguments__new__repeating_then_required__success() {
    let params = &[
        Parameter { name: "PARAM1", required: true, repeating: true },
        Parameter { name: "PARAM2", required: true, repeating: false },
    ];
    let (arg1, arg2, arg3) = ("arg1".to_string(), "arg2".to_string(), "arg3".to_string());
    let args =
        vec!["app".to_string(), "cmd".to_string(), arg1.clone(), arg2.clone(), arg3.clone()];

    let arguments = Arguments::new(params, args).unwrap();

    assert_eq!(vec![arg1, arg2], *arguments.get(params[0].name).unwrap());
    assert_eq!(vec![arg3], *arguments.get(params[1].name).unwrap());
}

#[test]
fn arguments__new__required_then_repeating__success() {
    let params = &[
        Parameter { name: "PARAM1", required: true, repeating: false },
        Parameter { name: "PARAM2", required: true, repeating: true },
    ];
    let (arg1, arg2, arg3) = ("arg1".to_string(), "arg2".to_string(), "arg3".to_string());
    let args =
        vec!["app".to_string(), "cmd".to_string(), arg1.clone(), arg2.clone(), arg3.clone()];

    let arguments = Arguments::new(params, args).unwrap();

    assert_eq!(vec![arg1], *arguments.get(params[0].name).unwrap());
    assert_eq!(vec![arg2, arg3], *arguments.get(params[1].name).unwrap());
}

#[test]
fn arguments__new__optional_then_required_with_one_arg__success() {
    let params = &[
        Parameter { name: "PARAM1", required: false, repeating: false },
        Parameter { name: "PARAM2", required: true, repeating: false },
    ];
    let arg1 = "arg1".to_string();
    let args = vec!["app".to_string(), "cmd".to_string(), arg1.clone()];

    let arguments = Arguments::new(params, args.clone()).unwrap();

    assert_eq!(0, arguments.get(params[0].name).unwrap().len());
    assert_eq!(vec![arg1], *arguments.get(params[1].name).unwrap());
}

#[test]
fn arguments__new__optional_then_required_with_two_args__success() {
    let params = &[
        Parameter { name: "PARAM1", required: false, repeating: false },
        Parameter { name: "PARAM2", required: true, repeating: false },
    ];
    let (arg1, arg2) = ("arg1".to_string(), "arg2".to_string());
    let args = vec!["app".to_string(), "cmd".to_string(), arg1.clone(), arg2.clone()];

    let arguments = Arguments::new(params, args).unwrap();

    assert_eq!(vec![arg1], *arguments.get(params[0].name).unwrap());
    assert_eq!(vec![arg2], *arguments.get(params[1].name).unwrap());
}

#[test]
fn arguments__new__required_then_optional_with_one_arg__success() {
    let params = &[
        Parameter { name: "PARAM1", required: true, repeating: false },
        Parameter { name: "PARAM2", required: false, repeating: false },
    ];
    let arg1 = "arg1".to_string();
    let args = vec!["app".to_string(), "cmd".to_string(), arg1.clone()];

    let arguments = Arguments::new(params, args.clone()).unwrap();

    assert_eq!(vec![arg1], *arguments.get(params[0].name).unwrap());
    assert_eq!(0, arguments.get(params[1].name).unwrap().len());
}

#[test]
fn arguments__new__required_then_optional_with_two_args__success() {
    let params = &[
        Parameter { name: "PARAM1", required: true, repeating: false },
        Parameter { name: "PARAM2", required: false, repeating: false },
    ];
    let (arg1, arg2) = ("arg1".to_string(), "arg2".to_string());
    let args = vec!["app".to_string(), "cmd".to_string(), arg1.clone(), arg2.clone()];

    let arguments = Arguments::new(params, args).unwrap();

    assert_eq!(vec![arg1], *arguments.get(params[0].name).unwrap());
    assert_eq!(vec![arg2], *arguments.get(params[1].name).unwrap());
}

#[test]
fn arguments__new__two_required_one_token__returns_none() {
    let params = &[
        Parameter { name: "PARAM1", required: true, repeating: false },
        Parameter { name: "PARAM2", required: true, repeating: false },
    ];
    let args = vec!["app".to_string(), "cmd".to_string(), "arg1".to_string()];

    let result = Arguments::new(params, args);

    assert!(result.is_none());
}

#[test]
fn arguments__new__surplus_over_nonrepeating_params__returns_none() {
    let params = &[
        Parameter { name: "PARAM1", required: true, repeating: false },
        Parameter { name: "PARAM2", required: false, repeating: false },
    ];
    let args = vec![
        "app".to_string(),
        "cmd".to_string(),
        "arg1".to_string(),
        "arg2".to_string(),
        "arg3".to_string(),
    ];

    let result = Arguments::new(params, args);

    assert!(result.is_none());
}

#[test]
fn arguments__new__optional_repeating_absorbs_all__success() {
    let params = &[Parameter { name: "PARAM", required: false, repeating: true }];
    let (arg1, arg2) = ("arg1".to_string(), "arg2".to_string());
    let args = vec!["app".to_string(), "cmd".to_string(), arg1.clone(), arg2.clone()];

    let arguments = Arguments::new(params, args).unwrap();

    assert_eq!(vec![arg1, arg2], *arguments.get(params[0].name).unwrap());
}

#[test]
fn arguments__new__no_params_no_tokens__success() {
    let params: &[Parameter] = &[];
    let args = vec!["app".to_string(), "cmd".to_string()];

    let result = Arguments::new(params, args);

    assert!(result.is_some());
}

#[test]
fn arguments__new__no_params_one_token__returns_none() {
    let params: &[Parameter] = &[];
    let args = vec!["app".to_string(), "cmd".to_string(), "arg1".to_string()];

    let result = Arguments::new(params, args);

    assert!(result.is_none());
}

#[test]
fn arguments__get__unknown_name__returns_none() {
    let params = &[Parameter { name: "PARAM", required: false, repeating: false }];
    let args = vec!["app".to_string(), "cmd".to_string()];

    let arguments = Arguments::new(params, args).unwrap();

    assert!(arguments.get("OTHER").is_none());
}
