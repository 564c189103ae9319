use schema_camel::dml::{
    Configuration, Datamodel, Field, IndexDefinition, IndexField, Intermediate, Model,
};

fn field(name: &str, field_type: &str, attributes: &[&str]) -> Field {
    Field {
        name: name.to_string(),
        database_name: None,
        field_type: field_type.to_string(),
        attributes: attributes.iter().map(|a| a.to_string()).collect(),
    }
}

fn schema_with(models: Vec<Model>) -> Intermediate {
    Intermediate {
        config: Configuration { text: "datasource db { provider = \"mysql\" }".to_string() },
        datamodel: Datamodel { models },
    }
}

fn auth_otp_model() -> Model {
    Model {
        name: "auth_otp".to_string(),
        database_name: None,
        fields: vec![
            field("id", "Int", &["@id", "@default(autoincrement())"]),
            field("user_id", "Int", &[]),
            field("otp", "String", &["@unique(map: \"otp\")", "@db.VarChar(255)"]),
            field("destroyed_at", "DateTime?", &["@db.Timestamp(0)"]),
            field("redeemed_at", "DateTime?", &["@db.Timestamp(0)"]),
            field("user_agent_issued_to", "String?", &["@db.VarChar(255)"]),
            field("ip_address_issued_to", "String?", &["@db.VarChar(255)"]),
            field("user_agent_redeemed", "String?", &["@db.VarChar(255)"]),
            field("ip_address_redeemed", "String?", &["@db.VarChar(255)"]),
            field("updated_at", "DateTime", &["@default(now())", "@db.Timestamp(0)"]),
            field("created_at", "DateTime?", &["@default(now())", "@db.Timestamp(0)"]),
        ],
        indices: vec![IndexDefinition {
            name: None,
            db_name: Some("user_id".to_string()),
            fields: vec![IndexField { name: "user_id".to_string() }],
        }],
    }
}

#[test]
fn auth_otp_scenario() {
    let mut ir = schema_with(vec![auth_otp_model()]);
    ir.transform_names();

    let model = &ir.datamodel.models[0];
    assert_eq!(model.name, "AuthOtp");
    assert_eq!(model.database_name.as_deref(), Some("auth_otp"));

    let names: Vec<&str> = model.fields.iter().map(|f| f.name.as_str()).collect();
    assert_eq!(
        names,
        vec![
            "id",
            "userId",
            "otp",
            "destroyedAt",
            "redeemedAt",
            "userAgentIssuedTo",
            "ipAddressIssuedTo",
            "userAgentRedeemed",
            "ipAddressRedeemed",
            "updatedAt",
            "createdAt",
        ]
    );
    assert_eq!(model.fields[1].database_name.as_deref(), Some("user_id"));
    assert_eq!(model.fields[2].database_name.as_deref(), Some("otp"));

    let index = &model.indices[0];
    assert_eq!(index.fields[0].name, "userId");
    assert_eq!(index.db_name.as_deref(), Some("user_id"));
    assert_eq!(index.name.as_deref(), Some("userId"));
}

#[test]
fn database_name_records_original_even_when_unchanged() {
    let mut ir = schema_with(vec![Model {
        name: "AuthOtp".to_string(),
        database_name: None,
        fields: vec![field("userId", "Int", &[])],
        indices: vec![],
    }]);
    ir.transform_names();

    let model = &ir.datamodel.models[0];
    assert_eq!(model.name, "AuthOtp");
    assert_eq!(model.database_name.as_deref(), Some("AuthOtp"));
    assert_eq!(model.fields[0].name, "userId");
    assert_eq!(model.fields[0].database_name.as_deref(), Some("userId"));
}

#[test]
fn attributes_and_configuration_pass_through() {
    let mut ir = schema_with(vec![auth_otp_model()]);
    ir.transform_names();

    assert_eq!(ir.config.text, "datasource db { provider = \"mysql\" }");
    let model = &ir.datamodel.models[0];
    assert_eq!(model.fields[0].field_type, "Int");
    assert_eq!(model.fields[0].attributes, vec!["@id", "@default(autoincrement())"]);
    assert_eq!(model.fields[2].field_type, "String");
    assert_eq!(model.fields[2].attributes, vec!["@unique(map: \"otp\")", "@db.VarChar(255)"]);
}

#[test]
fn model_order_is_preserved() {
    let mut ir = schema_with(vec![
        Model {
            name: "auth_otp".to_string(),
            database_name: None,
            fields: vec![],
            indices: vec![],
        },
        Model {
            name: "user_profile".to_string(),
            database_name: None,
            fields: vec![],
            indices: vec![],
        },
        Model {
            name: "billing".to_string(),
            database_name: None,
            fields: vec![],
            indices: vec![],
        },
    ]);
    ir.transform_names();

    let names: Vec<&str> = ir.datamodel.models.iter().map(|m| m.name.as_str()).collect();
    assert_eq!(names, vec!["AuthOtp", "UserProfile", "Billing"]);
}

#[test]
fn index_references_follow_renamed_fields() {
    let mut ir = schema_with(vec![Model {
        name: "auth_otp".to_string(),
        database_name: None,
        fields: vec![field("user_id", "Int", &[]), field("otp", "String", &[])],
        indices: vec![IndexDefinition {
            name: None,
            db_name: None,
            fields: vec![
                IndexField { name: "user_id".to_string() },
                IndexField { name: "otp".to_string() },
            ],
        }],
    }]);
    ir.transform_names();

    let model = &ir.datamodel.models[0];
    let field_names: Vec<&str> = model.fields.iter().map(|f| f.name.as_str()).collect();
    let index_names: Vec<&str> =
        model.indices[0].fields.iter().map(|f| f.name.as_str()).collect();
    assert_eq!(index_names, field_names);
    assert_eq!(index_names, vec!["userId", "otp"]);
}

#[test]
fn index_name_untouched_without_db_name() {
    let mut ir = schema_with(vec![Model {
        name: "auth_otp".to_string(),
        database_name: None,
        fields: vec![field("user_id", "Int", &[])],
        indices: vec![
            IndexDefinition {
                name: Some("my_index".to_string()),
                db_name: None,
                fields: vec![IndexField { name: "user_id".to_string() }],
            },
            IndexDefinition {
                name: None,
                db_name: None,
                fields: vec![IndexField { name: "user_id".to_string() }],
            },
        ],
    }]);
    ir.transform_names();

    let model = &ir.datamodel.models[0];
    assert_eq!(model.indices[0].name.as_deref(), Some("my_index"));
    assert!(model.indices[0].db_name.is_none());
    assert!(model.indices[1].name.is_none());
    assert_eq!(model.indices[0].fields[0].name, "userId");
    assert_eq!(model.indices[1].fields[0].name, "userId");
}

#[test]
fn second_run_keeps_display_names() {
    let mut ir = schema_with(vec![auth_otp_model()]);
    ir.transform_names();
    ir.transform_names();

    let model = &ir.datamodel.models[0];
    assert_eq!(model.name, "AuthOtp");
    assert_eq!(model.database_name.as_deref(), Some("AuthOtp"));
    assert_eq!(model.fields[1].name, "userId");
    assert_eq!(model.fields[1].database_name.as_deref(), Some("userId"));
}

#[test]
fn intermediate_from_parts() {
    let ir = Intermediate::from((
        Configuration { text: "generator client {}".to_string() },
        Datamodel { models: vec![] },
    ));
    assert_eq!(ir.config.text, "generator client {}");
    assert!(ir.datamodel.models.is_empty());
}

#[test]
fn empty_datamodel_is_unchanged() {
    let mut ir = schema_with(vec![]);
    ir.transform_names();
    assert!(ir.datamodel.models.is_empty());
    assert_eq!(ir.config.text, "datasource db { provider = \"mysql\" }");
}
