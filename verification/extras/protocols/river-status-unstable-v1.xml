<?xml version="1.0" encoding="UTF-8"?>
<protocol name="river_status_unstable_v1">
  <interface name="zriver_status_manager_v1" version="4">
    <request name="destroy" type="destructor"/>

    <request name="get_river_output_status">
      <arg name="id" type="new_id" interface="zriver_output_status_v1"/>
      <arg name="output" type="object" interface="wl_output"/>
    </request>

    <request name="get_river_seat_status">
      <arg name="id" type="new_id" interface="zriver_seat_status_v1"/>
      <arg name="seat" type="object" interface="wl_seat"/>
    </request>
  </interface>

  <interface name="zriver_output_status_v1" version="4">
    <request name="destroy" type="destructor"/>

    <event name="focused_tags">
      <arg name="tags" type="uint"/>
    </event>

    <event name="view_tags">
      <arg name="tags" type="array"/>
    </event>

    <event name="urgent_tags" since="2">
      <arg name="tags" type="uint"/>
    </event>

    <event name="layout_name" since="4">
      <arg name="name" type="string"/>
    </event>

    <event name="layout_name_clear" since="4"/>
  </interface>

  <interface name="zriver_seat_status_v1" version="3">
    <request name="destroy" type="destructor"/>

    <event name="focused_output">
      <arg name="output" type="object" interface="wl_output"/>
    </event>

    <event name="unfocused_output">
      <arg name="output" type="object" interface="wl_output"/>
    </event>

    <event name="focused_view">
      <arg name="title" type="string"/>
    </event>

    <event name="mode" since="3">
      <arg name="name" type="string"/>
    </event>
  </interface>
</protocol>
